//! Merging one tree into another, and wrapping an item into the chain of
//! tables that a dotted key names.

use crate::comment::Comments;
use crate::key::Key;
use crate::table::{distinct_keys, has_key, position, Table};
use crate::value::{
    lemma_items_view_add, Array, EntryModel, Item, ItemModel, Shape, Value, ValueModel,
};
use vstd::prelude::*;

verus! {

/// Two values that cannot be merged: the incoming value is not of the shape
/// of the value it meets, or meets a primitive.
#[derive(Clone, Debug, PartialEq, Eq)]
pub struct MergeConflict {
    /// The keys that lead from the values merged to the two that are at
    /// odds, the outermost first.
    pub path: Vec<String>,
    /// The shape of the value that was there.
    pub target: Shape,
    /// The shape of the value that came in.
    pub incoming: Shape,
}

/// A conflict, as a mathematical value.
pub struct ConflictModel {
    /// The keys that lead to the two values at odds.
    pub path: Seq<Seq<char>>,
    /// The shape of the value that was there.
    pub target: Shape,
    /// The shape of the value that came in.
    pub incoming: Shape,
}

impl View for MergeConflict {
    type V = ConflictModel;

    open spec fn view(&self) -> ConflictModel {
        ConflictModel {
            path: self.path@.map_values(|key: String| key@),
            target: self.target,
            incoming: self.incoming,
        }
    }
}

impl ConflictModel {
    /// The same conflict, seen from the table that holds the two values
    /// under `key`.
    pub open spec fn under(self, key: Seq<char>) -> ConflictModel {
        ConflictModel { path: seq![key] + self.path, target: self.target, incoming: self.incoming }
    }
}

/// Merges `incoming` into `target`. A table takes the entries of a table, an
/// array the items of an array; every other pair is a conflict.
pub open spec fn merge_value(target: ValueModel, incoming: ValueModel) -> Result<
    ValueModel,
    ConflictModel,
>
    decreases incoming, 2nat,
{
    match (target, incoming) {
        (ValueModel::Table(entries), ValueModel::Table(others)) => match merge_entries(
            entries,
            others,
        ) {
            Ok(merged) => Ok(ValueModel::Table(merged)),
            Err(conflict) => Err(conflict),
        },
        (ValueModel::Array(items), ValueModel::Array(others)) => Ok(
            ValueModel::Array(items + others),
        ),
        _ => Err(
            ConflictModel { path: Seq::empty(), target: target.shape(), incoming: incoming.shape() },
        ),
    }
}

/// Merges the entry of `key` and `item` into `entries`. Where an entry has
/// the key, the values are merged and the comments of `item` go behind those
/// that were there; otherwise the entry goes behind all others.
pub open spec fn merge_entry(entries: Seq<EntryModel>, key: Seq<char>, item: ItemModel) -> Result<
    Seq<EntryModel>,
    ConflictModel,
>
    decreases item, 0nat,
{
    if has_key(entries, key) {
        let i = position(entries, key);
        match merge_value(entries[i].item.value, item.value) {
            Ok(value) => Ok(
                entries.update(
                    i,
                    EntryModel {
                        key,
                        item: ItemModel { comments: entries[i].item.comments + item.comments, value },
                    },
                ),
            ),
            Err(conflict) => Err(conflict.under(key)),
        }
    } else {
        Ok(entries.push(EntryModel { key, item }))
    }
}

/// Merges the entries of `incoming` into `entries`, one after the other in
/// their order, up to the first conflict.
pub open spec fn merge_entries(entries: Seq<EntryModel>, incoming: Seq<EntryModel>) -> Result<
    Seq<EntryModel>,
    ConflictModel,
>
    decreases incoming, 1nat,
{
    if incoming.len() == 0 {
        Ok(entries)
    } else {
        match merge_entries(entries, incoming.drop_last()) {
            Ok(merged) => merge_entry(merged, incoming.last().key, incoming.last().item),
            Err(conflict) => Err(conflict),
        }
    }
}

/// The value that stands for `item` under the dotted key of segments `keys`:
/// the innermost segment leads to the item, every segment before it to a
/// table with one entry; without segments, the value of the item itself.
pub open spec fn wrap(keys: Seq<Seq<char>>, item: ItemModel) -> ValueModel
    decreases keys.len(),
{
    if keys.len() == 0 {
        item.value
    } else {
        wrap(
            keys.drop_last(),
            ItemModel {
                comments: Seq::empty(),
                value: ValueModel::Table(seq![EntryModel { key: keys.last(), item }]),
            },
        )
    }
}

/// A conflict met while the first entries are merged is the conflict of the
/// whole merge.
pub proof fn lemma_first_conflict(entries: Seq<EntryModel>, incoming: Seq<EntryModel>, count: int)
    requires
        0 <= count <= incoming.len(),
        merge_entries(entries, incoming.take(count)) is Err,
    ensures
        merge_entries(entries, incoming) == merge_entries(entries, incoming.take(count)),
    decreases incoming.len() - count,
{
    if count < incoming.len() {
        assert(incoming.take(count + 1).drop_last() == incoming.take(count));
        lemma_first_conflict(entries, incoming, count + 1);
    } else {
        assert(incoming.take(count) == incoming);
    }
}

/// Merging tables without a common key puts the incoming entries behind
/// those that were there, each side in its own order.
pub proof fn lemma_merge_disjoint(entries: Seq<EntryModel>, incoming: Seq<EntryModel>)
    requires
        distinct_keys(incoming),
        forall|i: int, j: int|
            0 <= i < entries.len() && 0 <= j < incoming.len() ==> (#[trigger] entries[i]).key != (
            #[trigger] incoming[j]).key,
    ensures
        merge_entries(entries, incoming) == Ok::<Seq<EntryModel>, ConflictModel>(
            entries + incoming,
        ),
    decreases incoming.len(),
{
    if incoming.len() == 0 {
        assert(entries + incoming == entries);
    } else {
        let front = incoming.drop_last();
        let last = incoming.last();
        assert(distinct_keys(front)) by {
            assert forall|i: int, j: int| 0 <= i < j < front.len() implies (#[trigger] front[i]).key
                != (#[trigger] front[j]).key by {
                assert(front[i] == incoming[i] && front[j] == incoming[j]);
            }
        }
        assert forall|i: int, j: int| 0 <= i < entries.len() && 0 <= j < front.len() implies (
        #[trigger] entries[i]).key != (#[trigger] front[j]).key by {
            assert(front[j] == incoming[j]);
        }
        lemma_merge_disjoint(entries, front);
        let merged = entries + front;
        assert(!has_key(merged, last.key)) by {
            if has_key(merged, last.key) {
                let i = position(merged, last.key);
                if i < entries.len() {
                    assert(merged[i] == entries[i]);
                    assert(entries[i].key != incoming[incoming.len() - 1].key);
                } else {
                    assert(merged[i] == incoming[i - entries.len()]);
                    assert(incoming[i - entries.len()].key != incoming[incoming.len() - 1].key);
                }
            }
        }
        assert(merged.push(last) == entries + incoming);
        assert(last == (EntryModel { key: last.key, item: last.item }));
        assert(merge_entry(merged, last.key, last.item) == Ok::<Seq<EntryModel>, ConflictModel>(
            merged.push(last),
        ));
    }
}

/// Merging arrays puts the incoming items behind those that were there, so
/// that it does not matter how three arrays are grouped.
pub proof fn lemma_merge_arrays(a: Seq<ItemModel>, b: Seq<ItemModel>, c: Seq<ItemModel>)
    ensures
        merge_value(ValueModel::Array(a), ValueModel::Array(b)) == Ok::<ValueModel, ConflictModel>(
            ValueModel::Array(a + b),
        ),
        merge_value(
            merge_value(ValueModel::Array(a), ValueModel::Array(b))->Ok_0,
            ValueModel::Array(c),
        ) == Ok::<ValueModel, ConflictModel>(ValueModel::Array(a + b + c)),
        merge_value(
            ValueModel::Array(a),
            merge_value(ValueModel::Array(b), ValueModel::Array(c))->Ok_0,
        ) == Ok::<ValueModel, ConflictModel>(ValueModel::Array(a + b + c)),
{
    assert(a + (b + c) == a + b + c);
}

impl MergeConflict {
    /// The conflict of two values that meet, of the given shapes.
    pub fn new(target: Shape, incoming: Shape) -> (conflict: MergeConflict)
        ensures
            conflict@ == (ConflictModel { path: Seq::empty(), target, incoming }),
    {
        let conflict = MergeConflict { path: Vec::new(), target, incoming };
        proof {
            assert(conflict@.path == Seq::<Seq<char>>::empty());
        }
        conflict
    }

    /// Puts `key` before the path: the conflict as seen from the table that
    /// holds the two values under `key`.
    pub fn nest(&mut self, key: String)
        ensures
            final(self)@ == old(self)@.under(key@),
    {
        self.path.insert(0, key);
        proof {
            assert(self@.path == seq![key@] + old(self)@.path);
        }
    }
}

impl Value {
    /// The shape of the value.
    pub fn shape(&self) -> (shape: Shape)
        ensures
            shape == self@.shape(),
    {
        match self {
            Value::Primitive(_) => Shape::Primitive,
            Value::Array(_) => Shape::Array,
            Value::Table(_) => Shape::Table,
        }
    }

    /// Merges `value` into this value. The merge stops at the first
    /// conflict; nothing is said of what the value holds then.
    pub fn merge(&mut self, value: Value) -> (result: Result<(), MergeConflict>)
        ensures
            match merge_value(old(self)@, value@) {
                Ok(merged) => result is Ok && final(self)@ == merged,
                Err(conflict) => result is Err && result->Err_0@ == conflict,
            },
        decreases value@, 2nat,
    {
        let incoming = value.shape();
        match self {
            Value::Table(table) => match value {
                Value::Table(_) => table.merge(value),
                _ => Err(MergeConflict::new(Shape::Table, incoming)),
            },
            Value::Array(array) => match value {
                Value::Array(_) => array.merge(value),
                _ => Err(MergeConflict::new(Shape::Array, incoming)),
            },
            Value::Primitive(_) => Err(MergeConflict::new(Shape::Primitive, incoming)),
        }
    }

    /// The value that stands for `item` under the dotted key `key`.
    pub fn wrap(key: Key, item: Item) -> (value: Value)
        ensures
            value@ == wrap(key.texts(), item@),
    {
        let mut rest = key;
        let mut inner = item;
        loop
            invariant
                wrap(key.texts(), item@) == wrap(rest.texts(), inner@),
            decreases rest.0@.len(),
        {
            let ghost before = rest.texts();
            let ghost wrapped = inner@;
            match rest.pop() {
                Some(segment) => {
                    proof {
                        assert(rest.texts() == before.drop_last());
                        assert(before.last() == segment.spec_text());
                    }
                    let mut table = Table::new();
                    table.insert(segment.into_inner(), inner);
                    proof {
                        assert(!has_key(Seq::<EntryModel>::empty(), before.last()));
                        assert(table@ == seq![EntryModel { key: before.last(), item: wrapped }]);
                    }
                    inner = Item { comments: Comments::new(), value: Value::Table(table) };
                },
                None => {
                    proof {
                        assert(before.len() == 0);
                    }
                    return inner.value;
                },
            }
        }
    }
}

impl Array {
    /// Merges `value` into this array: the items of an array go behind those
    /// that are there; a value of another shape is a conflict.
    pub fn merge(&mut self, value: Value) -> (result: Result<(), MergeConflict>)
        ensures
            match merge_value(ValueModel::Array(old(self)@), value@) {
                Ok(merged) => result is Ok && ValueModel::Array(final(self)@) == merged,
                Err(conflict) => result is Err && result->Err_0@ == conflict,
            },
    {
        let incoming = value.shape();
        match value {
            Value::Array(mut other) => {
                proof {
                    lemma_items_view_add(self.0@, other.0@);
                }
                self.0.append(&mut other.0);
                Ok(())
            },
            _ => Err(MergeConflict::new(Shape::Array, incoming)),
        }
    }
}

impl Table {
    /// Merges `value` into this table: each entry of a table is merged under
    /// its key, in order; a value of another shape is a conflict. The merge
    /// stops at the first conflict; nothing is said of what the table holds
    /// then.
    pub fn merge(&mut self, value: Value) -> (result: Result<(), MergeConflict>)
        ensures
            match merge_value(ValueModel::Table(old(self)@), value@) {
                Ok(merged) => result is Ok && ValueModel::Table(final(self)@) == merged,
                Err(conflict) => result is Err && result->Err_0@ == conflict,
            },
        decreases value@, 1nat,
    {
        let incoming = value.shape();
        let other = match value {
            Value::Table(other) => other,
            _ => {
                return Err(MergeConflict::new(Shape::Table, incoming));
            },
        };
        let ghost before = self@;
        let ghost source = other@;
        let entries = other.into_entries();
        for pair in it: entries
            invariant
                it.seq() == entries@,
                entries@.len() == source.len(),
                value@ == ValueModel::Table(source),
                before == old(self)@,
                forall|i: int|
                    0 <= i < entries@.len() ==> (#[trigger] entries@[i]).0@ == source[i].key
                        && entries@[i].1@ == source[i].item,
                merge_entries(before, source.take(it.index())) == Ok::<
                    Seq<EntryModel>,
                    ConflictModel,
                >(self@),
        {
            let ghost index = it.index();
            let ghost merged = self@;
            let (key, item) = pair;
            let Item { comments: mut comments, value: incoming_value } = item;
            proof {
                assert(pair == entries@[index]);
                assert(source.take(index + 1).drop_last() == source.take(index));
                assert(source.take(index + 1).last() == source[index]);
                assert(incoming_value@ == source[index].item.value);
                assert(comments@ == source[index].item.comments);
                assert(decreases_to!(source => source[index]));
                assert(decreases_to!(source[index] => source[index].item));
                assert(decreases_to!(source[index].item => source[index].item.value));
            }
            let ghost place = position(merged, key@);
            match self.get_mut(key.as_str()) {
                Some(slot) => {
                    let ghost target = slot@;
                    proof {
                        assert(target == merged[place].item);
                        assert(slot.value@ == target.value);
                    }
                    match slot.value.merge(incoming_value) {
                        Ok(()) => {},
                        Err(conflict) => {
                            let mut conflict = conflict;
                            proof {
                                assert(merge_entry(merged, source[index].key, source[index].item)
                                    == Err::<Seq<EntryModel>, ConflictModel>(
                                    conflict@.under(key@),
                                ));
                            }
                            conflict.nest(key);
                            proof {
                                lemma_first_conflict(before, source, index + 1);
                            }
                            return Err(conflict);
                        },
                    }
                    slot.comments.append(&mut comments);
                    proof {
                        assert(slot@ == (ItemModel {
                            comments: target.comments + source[index].item.comments,
                            value: merge_value(target.value, source[index].item.value)->Ok_0,
                        }));
                    }
                },
                None => {
                    self.insert(key, Item { comments, value: incoming_value });
                },
            }
        }
        proof {
            assert(source.take(source.len() as int) == source);
        }
        Ok(())
    }
}

} // verus!
