//! Conversions into values and items, and tables and arrays built from
//! lists.

use crate::comment::Comments;
use crate::date_time::DateTime;
use crate::escape::Flags;
use crate::key::Key;
use crate::merge::{wrap, ConflictModel, MergeConflict};
use crate::number::{Float, Integer};
use crate::quotes::Quoted;
use crate::table::{put, Table};
use crate::value::{Array, EntryModel, Item, ItemModel, Primitive, Value, ValueModel};
use vstd::prelude::*;
use vstd::std_specs::convert::FromSpecImpl;

verus! {

impl From<Value> for Item {
    fn from(from: Value) -> (item: Item) {
        Item::of(from)
    }
}

impl FromSpecImpl<Value> for Item {
    /// Nothing is stated of `from` itself: [`Item::of`] does the same and
    /// says what it returns.
    open spec fn obeys_from_spec() -> bool {
        false
    }

    open spec fn from_spec(from: Value) -> Item {
        arbitrary()
    }
}

/// The model of the item of `value` without comments.
pub open spec fn bare_item(value: ValueModel) -> ItemModel {
    ItemModel { comments: Seq::empty(), value }
}

impl Item {
    /// The item of `value` without comments.
    pub fn of(value: Value) -> (item: Item)
        ensures
            item@ == bare_item(value@),
            item.value == value,
    {
        Item { comments: Comments::new(), value }
    }
}

impl From<Primitive> for Value {
    fn from(from: Primitive) -> (value: Value) {
        Value::Primitive(from)
    }
}

impl FromSpecImpl<Primitive> for Value {
    open spec fn obeys_from_spec() -> bool {
        true
    }

    open spec fn from_spec(from: Primitive) -> Value {
        Value::Primitive(from)
    }
}

impl From<Array> for Value {
    fn from(from: Array) -> (value: Value) {
        Value::Array(from)
    }
}

impl FromSpecImpl<Array> for Value {
    open spec fn obeys_from_spec() -> bool {
        true
    }

    open spec fn from_spec(from: Array) -> Value {
        Value::Array(from)
    }
}

impl From<Table> for Value {
    fn from(from: Table) -> (value: Value) {
        Value::Table(from)
    }
}

impl FromSpecImpl<Table> for Value {
    open spec fn obeys_from_spec() -> bool {
        true
    }

    open spec fn from_spec(from: Table) -> Value {
        Value::Table(from)
    }
}

impl From<Vec<Item>> for Value {
    fn from(from: Vec<Item>) -> (value: Value) {
        Value::Array(Array(from))
    }
}

impl FromSpecImpl<Vec<Item>> for Value {
    open spec fn obeys_from_spec() -> bool {
        true
    }

    open spec fn from_spec(from: Vec<Item>) -> Value {
        Value::Array(Array(from))
    }
}

impl From<Quoted<String>> for Value {
    fn from(from: Quoted<String>) -> (value: Value) {
        Value::Primitive(Primitive::String(from))
    }
}

impl FromSpecImpl<Quoted<String>> for Value {
    open spec fn obeys_from_spec() -> bool {
        true
    }

    open spec fn from_spec(from: Quoted<String>) -> Value {
        Value::Primitive(Primitive::String(from))
    }
}

impl From<String> for Value {
    fn from(from: String) -> (value: Value) {
        Value::Primitive(Primitive::String(Quoted::new(from)))
    }
}

impl FromSpecImpl<String> for Value {
    open spec fn obeys_from_spec() -> bool {
        true
    }

    open spec fn from_spec(from: String) -> Value {
        Value::Primitive(Primitive::String(Quoted::select(Flags::of(from@), from)))
    }
}

impl From<Integer> for Value {
    fn from(from: Integer) -> (value: Value) {
        Value::Primitive(Primitive::Integer(from))
    }
}

impl FromSpecImpl<Integer> for Value {
    open spec fn obeys_from_spec() -> bool {
        true
    }

    open spec fn from_spec(from: Integer) -> Value {
        Value::Primitive(Primitive::Integer(from))
    }
}

impl From<i64> for Value {
    fn from(from: i64) -> (value: Value) {
        Value::Primitive(Primitive::Integer(Integer::Decimal(from)))
    }
}

impl FromSpecImpl<i64> for Value {
    open spec fn obeys_from_spec() -> bool {
        true
    }

    open spec fn from_spec(from: i64) -> Value {
        Value::Primitive(Primitive::Integer(Integer::Decimal(from)))
    }
}

impl From<Float> for Value {
    fn from(from: Float) -> (value: Value) {
        Value::Primitive(Primitive::Float(from))
    }
}

impl FromSpecImpl<Float> for Value {
    open spec fn obeys_from_spec() -> bool {
        true
    }

    open spec fn from_spec(from: Float) -> Value {
        Value::Primitive(Primitive::Float(from))
    }
}

impl From<bool> for Value {
    fn from(from: bool) -> (value: Value) {
        Value::Primitive(Primitive::Boolean(from))
    }
}

impl FromSpecImpl<bool> for Value {
    open spec fn obeys_from_spec() -> bool {
        true
    }

    open spec fn from_spec(from: bool) -> Value {
        Value::Primitive(Primitive::Boolean(from))
    }
}

impl From<DateTime> for Value {
    fn from(from: DateTime) -> (value: Value) {
        Value::Primitive(Primitive::DateTime(from))
    }
}

impl FromSpecImpl<DateTime> for Value {
    open spec fn obeys_from_spec() -> bool {
        true
    }

    open spec fn from_spec(from: DateTime) -> Value {
        Value::Primitive(Primitive::DateTime(from))
    }
}

/// The items of the values, each without comments.
pub open spec fn bare_items(values: Seq<Value>) -> Seq<ItemModel>
    decreases values.len(),
{
    if values.len() == 0 {
        Seq::empty()
    } else {
        bare_items(values.drop_last()).push(bare_item(values.last()@))
    }
}

/// The entries of a table after each value was put under its key, in
/// order: a key that comes again keeps its place and takes the later
/// value.
pub open spec fn put_all(pairs: Seq<(String, Value)>) -> Seq<EntryModel>
    decreases pairs.len(),
{
    if pairs.len() == 0 {
        Seq::empty()
    } else {
        put(put_all(pairs.drop_last()), pairs.last().0@, bare_item(pairs.last().1@))
    }
}

/// The table after each value was wrapped into its key and merged, in
/// order, up to the first conflict.
pub open spec fn merge_all(pairs: Seq<(Key, Value)>) -> Result<Seq<EntryModel>, ConflictModel>
    decreases pairs.len(),
{
    if pairs.len() == 0 {
        Ok(Seq::empty())
    } else {
        match merge_all(pairs.drop_last()) {
            Ok(entries) => crate::ast::merge_table(
                entries,
                wrap(pairs.last().0.texts(), bare_item(pairs.last().1@)),
            ),
            Err(conflict) => Err(conflict),
        }
    }
}

/// A conflict met while the first pairs are merged is the conflict of the
/// whole list.
pub proof fn lemma_merge_all_conflict(pairs: Seq<(Key, Value)>, count: int)
    requires
        0 <= count <= pairs.len(),
        merge_all(pairs.take(count)) is Err,
    ensures
        merge_all(pairs) == merge_all(pairs.take(count)),
    decreases pairs.len() - count,
{
    if count < pairs.len() {
        assert(pairs.take(count + 1).drop_last() == pairs.take(count));
        lemma_merge_all_conflict(pairs, count + 1);
    } else {
        assert(pairs.take(count) == pairs);
    }
}

impl Array {
    /// The array of the given values, each an item without comments.
    pub fn from_values(values: Vec<Value>) -> (array: Array)
        ensures
            array@ == bare_items(values@),
    {
        let mut array = Array::new();
        for value in it: values
            invariant
                it.seq() == values@,
                array@ == bare_items(values@.take(it.index())),
        {
            proof {
                assert(values@.take(it.index() + 1).drop_last() == values@.take(it.index()));
                assert(values@.take(it.index() + 1).last() == value);
            }
            array.push(Item::of(value));
        }
        proof {
            assert(values@.take(values@.len() as int) == values@);
        }
        array
    }
}

impl Table {
    /// The table of the given values under their keys, each an item without
    /// comments.
    pub fn from_pairs(pairs: Vec<(String, Value)>) -> (table: Table)
        ensures
            table@ == put_all(pairs@),
    {
        let mut table = Table::new();
        for pair in it: pairs
            invariant
                it.seq() == pairs@,
                table@ == put_all(pairs@.take(it.index())),
        {
            proof {
                assert(pairs@.take(it.index() + 1).drop_last() == pairs@.take(it.index()));
                assert(pairs@.take(it.index() + 1).last() == pair);
            }
            let (key, value) = pair;
            table.insert(key, Item::of(value));
        }
        proof {
            assert(pairs@.take(pairs@.len() as int) == pairs@);
        }
        table
    }

    /// The table of the given values, each wrapped into its dotted key and
    /// merged into what the pairs before it gave; or the first conflict.
    pub fn from_keyed(pairs: Vec<(Key, Value)>) -> (table: Result<Table, MergeConflict>)
        ensures
            match merge_all(pairs@) {
                Ok(entries) => table is Ok && table->Ok_0@ == entries,
                Err(conflict) => table is Err && table->Err_0@ == conflict,
            },
    {
        let mut table = Table::new();
        for pair in it: pairs
            invariant
                it.seq() == pairs@,
                merge_all(pairs@.take(it.index())) == Ok::<Seq<EntryModel>, ConflictModel>(table@),
        {
            let ghost index = it.index();
            proof {
                assert(pairs@.take(index + 1).drop_last() == pairs@.take(index));
                assert(pairs@.take(index + 1).last() == pair);
            }
            let (key, value) = pair;
            match table.merge(Value::wrap(key, Item::of(value))) {
                Ok(()) => {},
                Err(conflict) => {
                    proof {
                        lemma_merge_all_conflict(pairs@, index + 1);
                    }
                    return Err(conflict);
                },
            }
        }
        proof {
            assert(pairs@.take(pairs@.len() as int) == pairs@);
        }
        Ok(table)
    }
}

impl Value {
    /// The array of the given values, each an item without comments.
    pub fn from_values(values: Vec<Value>) -> (value: Value)
        ensures
            value@ == ValueModel::Array(bare_items(values@)),
    {
        Value::Array(Array::from_values(values))
    }

    /// The table of the given values under their keys, each an item without
    /// comments.
    pub fn from_pairs(pairs: Vec<(String, Value)>) -> (value: Value)
        ensures
            value@ == ValueModel::Table(put_all(pairs@)),
    {
        Value::Table(Table::from_pairs(pairs))
    }
}

} // verus!
