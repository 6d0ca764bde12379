//! The tree of a document: tables, arrays and primitives, each stored as an
//! item with its comments.

use crate::comment::{Comments, Kind};
use crate::date_time::DateTime;
use crate::number::{integer_text, Float, Integer};
use crate::quotes::{quoted_text, Quoted};
use crate::table::{has_key, position};
use vstd::prelude::*;

pub use crate::table::Table;

verus! {

/// A value with the comments that belong to it: what a table holds under a
/// key, and an array at a position.
#[derive(Clone, Debug, PartialEq)]
pub struct Item {
    /// The comments around the declaration of the value.
    pub comments: Comments,
    /// The value.
    pub value: Value,
}

/// A value: a primitive, an array or a table.
#[derive(Clone, Debug, PartialEq)]
pub enum Value {
    /// A string, a number, a boolean or a date-time.
    Primitive(Primitive),
    /// Items in order.
    Array(Array),
    /// Items under keys, in order.
    Table(Table),
}

/// A value without parts.
#[derive(Clone, Debug, PartialEq)]
pub enum Primitive {
    /// A string, with its quoting.
    String(Quoted<String>),
    /// An integer, with its radix.
    Integer(Integer),
    /// A float, with its notation.
    Float(Float),
    /// A boolean.
    Boolean(bool),
    /// A date-time, with its offset.
    DateTime(DateTime),
}

/// Items in order.
#[derive(Debug)]
pub struct Array(pub Vec<Item>);

impl Clone for Array {
    /// `Vec::clone` makes a vector of clones of the items.
    #[verifier::external_body]
    fn clone(&self) -> (copy: Array) {
        Array(self.0.clone())
    }
}

impl PartialEq for Array {
    /// `Vec::eq` tells whether both vectors hold equal items at the same
    /// places.
    #[verifier::external_body]
    fn eq(&self, other: &Array) -> (equal: bool) {
        self.0 == other.0
    }
}

/// What an item is, as a mathematical value.
pub struct ItemModel {
    /// The comments, in order.
    pub comments: Seq<Kind<Seq<char>>>,
    /// The value.
    pub value: ValueModel,
}

/// What a value is, as a mathematical value.
pub enum ValueModel {
    /// A primitive.
    Primitive(Primitive),
    /// The items of an array, in order.
    Array(Seq<ItemModel>),
    /// The entries of a table, in order.
    Table(Seq<EntryModel>),
}

/// What a table holds under one key.
pub struct EntryModel {
    /// The text of the key.
    pub key: Seq<char>,
    /// The item under the key.
    pub item: ItemModel,
}

/// The three shapes of a value.
#[derive(Clone, Copy, Debug, PartialEq, Eq, Structural)]
pub enum Shape {
    /// A primitive.
    Primitive,
    /// An array.
    Array,
    /// A table.
    Table,
}

impl ValueModel {
    /// The shape of the value.
    pub open spec fn shape(self) -> Shape {
        match self {
            ValueModel::Primitive(_) => Shape::Primitive,
            ValueModel::Array(_) => Shape::Array,
            ValueModel::Table(_) => Shape::Table,
        }
    }
}

/// The models of the items of a sequence, in order.
pub open spec fn items_view(items: Seq<Item>) -> Seq<ItemModel>
    decreases items,
{
    if items.len() == 0 {
        Seq::empty()
    } else {
        items_view(items.drop_last()).push(item_view(items.last()))
    }
}

/// The model of an item.
pub open spec fn item_view(item: Item) -> ItemModel
    decreases item,
{
    ItemModel { comments: item.comments@, value: value_view(item.value) }
}

/// The model of a value.
pub open spec fn value_view(value: Value) -> ValueModel
    decreases value,
{
    match value {
        Value::Primitive(primitive) => ValueModel::Primitive(primitive),
        Value::Array(array) => ValueModel::Array(items_view(array.0@)),
        Value::Table(table) => ValueModel::Table(table@),
    }
}

impl View for Item {
    type V = ItemModel;

    open spec fn view(&self) -> ItemModel {
        item_view(*self)
    }
}

impl View for Value {
    type V = ValueModel;

    open spec fn view(&self) -> ValueModel {
        value_view(*self)
    }
}

impl View for Array {
    type V = Seq<ItemModel>;

    open spec fn view(&self) -> Seq<ItemModel> {
        items_view(self.0@)
    }
}

/// The models of a sequence of items are as many as the items, and stand at
/// the same places.
pub proof fn lemma_items_view(items: Seq<Item>)
    ensures
        items_view(items).len() == items.len(),
        forall|i: int| 0 <= i < items.len() ==> (#[trigger] items_view(items)[i]) == item_view(items[i]),
    decreases items.len(),
{
    if items.len() > 0 {
        lemma_items_view(items.drop_last());
    }
}

/// The models of a longer sequence are the models of its two parts.
pub proof fn lemma_items_view_add(a: Seq<Item>, b: Seq<Item>)
    ensures
        items_view(a + b) == items_view(a) + items_view(b),
    decreases b.len(),
{
    if b.len() == 0 {
        assert(a + b == a);
    } else {
        lemma_items_view_add(a, b.drop_last());
        assert((a + b).drop_last() == a + b.drop_last());
        assert((a + b).last() == b.last());
    }
}

/// A primitive as it is written.
pub open spec fn primitive_text(primitive: Primitive) -> Seq<char> {
    match primitive {
        Primitive::String(string) => quoted_text(string@),
        Primitive::Integer(integer) => integer_text(integer),
        Primitive::Float(float) => float.spec_number().text@,
        Primitive::Boolean(boolean) => if boolean {
            seq!['t', 'r', 'u', 'e']
        } else {
            seq!['f', 'a', 'l', 's', 'e']
        },
        Primitive::DateTime(date_time) => date_time.rendered(),
    }
}

impl Primitive {
    /// The primitive as it is written.
    pub fn to_string(&self) -> (text: String)
        ensures
            text@ == primitive_text(*self),
    {
        match self {
            Primitive::String(string) => string.to_string(),
            Primitive::Integer(integer) => integer.to_string(),
            Primitive::Float(float) => float.to_string(),
            Primitive::Boolean(boolean) => {
                let mut text = String::new();
                if *boolean {
                    text.push('t');
                    text.push('r');
                    text.push('u');
                    text.push('e');
                } else {
                    text.push('f');
                    text.push('a');
                    text.push('l');
                    text.push('s');
                    text.push('e');
                }
                text
            },
            Primitive::DateTime(date_time) => date_time.to_string(),
        }
    }
}

impl Item {
    /// The item under `key`, where the value of this item is a table that
    /// has one.
    pub fn get(&self, key: &str) -> (item: Option<&Item>)
        ensures
            item is Some == (self@.value matches ValueModel::Table(entries) && has_key(
                entries,
                key@,
            )),
            item matches Some(found) ==> found@ == self@.value->Table_0[position(
                self@.value->Table_0,
                key@,
            )].item,
    {
        self.value.get(key)
    }

    /// The item at `index`, where the value of this item is an array that
    /// has one.
    pub fn get_index(&self, index: usize) -> (item: Option<&Item>)
        ensures
            item is Some == (self@.value matches ValueModel::Array(items) && index < items.len()),
            item matches Some(found) ==> found@ == self@.value->Array_0[index as int],
    {
        self.value.get_index(index)
    }

    /// The item of `value` with the given comments.
    pub fn new(comments: Comments, value: Value) -> (item: Item)
        ensures
            item.comments == comments,
            item.value == value,
    {
        Item { comments, value }
    }
}

impl Array {
    /// The array without items.
    pub fn new() -> (array: Array)
        ensures
            array@ == Seq::<ItemModel>::empty(),
    {
        Array(Vec::new())
    }

    /// How many items the array holds.
    pub fn len(&self) -> (n: usize)
        ensures
            n == self@.len(),
    {
        proof {
            lemma_items_view(self.0@);
        }
        self.0.len()
    }

    /// Holds the array no item?
    pub fn is_empty(&self) -> (empty: bool)
        ensures
            empty == (self@.len() == 0),
    {
        proof {
            lemma_items_view(self.0@);
        }
        self.0.len() == 0
    }

    /// The item at `index`, if there is one.
    pub fn get(&self, index: usize) -> (item: Option<&Item>)
        ensures
            index < self@.len() ==> item is Some && item->0@ == self@[index as int],
            index >= self@.len() ==> item is None,
    {
        proof {
            lemma_items_view(self.0@);
        }
        if index < self.0.len() {
            Some(&self.0[index])
        } else {
            None
        }
    }

    /// Adds an item behind the others.
    pub fn push(&mut self, item: Item)
        ensures
            final(self)@ == old(self)@.push(item@),
    {
        self.0.push(item);
        proof {
            assert(self.0@.drop_last() == old(self).0@);
        }
    }
}

impl Value {
    /// The array, where the value is one.
    pub fn as_array(&self) -> (array: Option<&Array>)
        ensures
            array == (match *self {
                Value::Array(a) => Some(&a),
                _ => None,
            }),
    {
        match self {
            Value::Array(array) => Some(array),
            _ => None,
        }
    }

    /// The array, for change, where the value is one.
    pub fn as_array_mut(&mut self) -> (array: Option<&mut Array>)
        ensures
            match array {
                Some(a) => *old(self) == Value::Array(*a) && *final(self) == Value::Array(*final(a)),
                None => !(*old(self) is Array) && *final(self) == *old(self),
            },
    {
        match self {
            Value::Array(array) => Some(array),
            _ => None,
        }
    }

    /// The boolean, where the value is one.
    pub fn as_boolean(&self) -> (boolean: Option<&bool>)
        ensures
            boolean == (match *self {
                Value::Primitive(Primitive::Boolean(b)) => Some(&b),
                _ => None,
            }),
    {
        match self {
            Value::Primitive(Primitive::Boolean(boolean)) => Some(boolean),
            _ => None,
        }
    }

    /// The date-time, where the value is one.
    pub fn as_date_time(&self) -> (date_time: Option<&DateTime>)
        ensures
            date_time == (match *self {
                Value::Primitive(Primitive::DateTime(d)) => Some(&d),
                _ => None,
            }),
    {
        match self {
            Value::Primitive(Primitive::DateTime(date_time)) => Some(date_time),
            _ => None,
        }
    }

    /// The float, where the value is one.
    pub fn as_float(&self) -> (float: Option<&Float>)
        ensures
            float == (match *self {
                Value::Primitive(Primitive::Float(f)) => Some(&f),
                _ => None,
            }),
    {
        match self {
            Value::Primitive(Primitive::Float(float)) => Some(float),
            _ => None,
        }
    }

    /// The integer, where the value is one.
    pub fn as_integer(&self) -> (integer: Option<&Integer>)
        ensures
            integer == (match *self {
                Value::Primitive(Primitive::Integer(i)) => Some(&i),
                _ => None,
            }),
    {
        match self {
            Value::Primitive(Primitive::Integer(integer)) => Some(integer),
            _ => None,
        }
    }

    /// The primitive, where the value is one.
    pub fn as_primitive(&self) -> (primitive: Option<&Primitive>)
        ensures
            primitive == (match *self {
                Value::Primitive(p) => Some(&p),
                _ => None,
            }),
    {
        match self {
            Value::Primitive(primitive) => Some(primitive),
            _ => None,
        }
    }

    /// The string, where the value is one.
    pub fn as_string(&self) -> (string: Option<&Quoted<String>>)
        ensures
            string == (match *self {
                Value::Primitive(Primitive::String(s)) => Some(&s),
                _ => None,
            }),
    {
        match self {
            Value::Primitive(Primitive::String(string)) => Some(string),
            _ => None,
        }
    }

    /// The table, where the value is one.
    pub fn as_table(&self) -> (table: Option<&Table>)
        ensures
            table == (match *self {
                Value::Table(t) => Some(&t),
                _ => None,
            }),
    {
        match self {
            Value::Table(table) => Some(table),
            _ => None,
        }
    }

    /// The table, for change, where the value is one.
    pub fn as_table_mut(&mut self) -> (table: Option<&mut Table>)
        ensures
            match table {
                Some(t) => *old(self) == Value::Table(*t) && *final(self) == Value::Table(*final(t)),
                None => !(*old(self) is Table) && *final(self) == *old(self),
            },
    {
        match self {
            Value::Table(table) => Some(table),
            _ => None,
        }
    }

    /// Gives up the value for its table, where it is one.
    pub fn into_table(self) -> (table: Option<Table>)
        ensures
            table == (match self {
                Value::Table(t) => Some(t),
                _ => None,
            }),
    {
        match self {
            Value::Table(table) => Some(table),
            _ => None,
        }
    }

    /// Is the value an array?
    pub fn is_array(&self) -> (yes: bool)
        ensures
            yes == (*self is Array),
    {
        self.as_array().is_some()
    }

    /// Is the value a boolean?
    pub fn is_boolean(&self) -> (yes: bool)
        ensures
            yes == (*self matches Value::Primitive(Primitive::Boolean(_))),
    {
        self.as_boolean().is_some()
    }

    /// Is the value a date-time?
    pub fn is_date_time(&self) -> (yes: bool)
        ensures
            yes == (*self matches Value::Primitive(Primitive::DateTime(_))),
    {
        self.as_date_time().is_some()
    }

    /// Is the value a float?
    pub fn is_float(&self) -> (yes: bool)
        ensures
            yes == (*self matches Value::Primitive(Primitive::Float(_))),
    {
        self.as_float().is_some()
    }

    /// Is the value an integer?
    pub fn is_integer(&self) -> (yes: bool)
        ensures
            yes == (*self matches Value::Primitive(Primitive::Integer(_))),
    {
        self.as_integer().is_some()
    }

    /// Is the value a primitive?
    pub fn is_primitive(&self) -> (yes: bool)
        ensures
            yes == (*self is Primitive),
    {
        self.as_primitive().is_some()
    }

    /// Is the value a string?
    pub fn is_string(&self) -> (yes: bool)
        ensures
            yes == (*self matches Value::Primitive(Primitive::String(_))),
    {
        self.as_string().is_some()
    }

    /// Is the value a table?
    pub fn is_table(&self) -> (yes: bool)
        ensures
            yes == (*self is Table),
    {
        self.as_table().is_some()
    }

    /// Are the two values of the same shape: both primitives, both arrays or
    /// both tables?
    pub fn same_type(&self, other: &Value) -> (same: bool)
        ensures
            same == (self@.shape() == other@.shape()),
    {
        match (self, other) {
            (Value::Primitive(_), Value::Primitive(_)) => true,
            (Value::Array(_), Value::Array(_)) => true,
            (Value::Table(_), Value::Table(_)) => true,
            _ => false,
        }
    }

    /// The name of the type of the value.
    pub fn type_str(&self) -> (name: &'static str)
        ensures
            name@ == kind_name(*self),
    {
        match self {
            Value::Primitive(Primitive::String(_)) => "string",
            Value::Primitive(Primitive::Integer(_)) => "integer",
            Value::Primitive(Primitive::Float(_)) => "float",
            Value::Primitive(Primitive::Boolean(_)) => "boolean",
            Value::Primitive(Primitive::DateTime(_)) => "datetime",
            Value::Array(_) => "array",
            Value::Table(_) => "table",
        }
    }

    /// The item under `key`, where the value is a table that has one.
    pub fn get(&self, key: &str) -> (item: Option<&Item>)
        ensures
            item is Some == (self@ matches ValueModel::Table(entries) && has_key(entries, key@)),
            item matches Some(found) ==> found@ == self@->Table_0[position(self@->Table_0, key@)].item,
    {
        match self {
            Value::Table(table) => table.get(key),
            _ => None,
        }
    }

    /// The item at `index`, where the value is an array that has one.
    pub fn get_index(&self, index: usize) -> (item: Option<&Item>)
        ensures
            item is Some == (self@ matches ValueModel::Array(items) && index < items.len()),
            item matches Some(found) ==> found@ == self@->Array_0[index as int],
    {
        match self {
            Value::Array(array) => array.get(index),
            _ => None,
        }
    }

    /// The item under `key` of a table that has one.
    pub fn index(&self, key: &str) -> (item: &Item)
        requires
            self@ matches ValueModel::Table(entries) && has_key(entries, key@),
        ensures
            item@ == self@->Table_0[position(self@->Table_0, key@)].item,
    {
        match self.get(key) {
            Some(item) => item,
            None => vstd::pervasive::unreached(),
        }
    }

    /// The item at `index` of an array that has one.
    pub fn index_at(&self, index: usize) -> (item: &Item)
        requires
            self@ matches ValueModel::Array(items) && index < items.len(),
        ensures
            item@ == self@->Array_0[index as int],
    {
        match self.get_index(index) {
            Some(item) => item,
            None => vstd::pervasive::unreached(),
        }
    }
}

/// The name of the type of a value.
pub open spec fn kind_name(value: Value) -> Seq<char> {
    match value {
        Value::Primitive(Primitive::String(_)) => "string"@,
        Value::Primitive(Primitive::Integer(_)) => "integer"@,
        Value::Primitive(Primitive::Float(_)) => "float"@,
        Value::Primitive(Primitive::Boolean(_)) => "boolean"@,
        Value::Primitive(Primitive::DateTime(_)) => "datetime"@,
        Value::Array(_) => "array"@,
        Value::Table(_) => "table"@,
    }
}

} // verus!
