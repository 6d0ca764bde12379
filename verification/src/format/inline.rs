use crate::comment::{post_tail, pre_lines, push_post, push_pre, Comments};
use crate::key::{segment_text, Segment};
use crate::table::Table;
use crate::text::push_text;
use crate::value::{
    item_view, lemma_items_view, primitive_text, Array, EntryModel, Item, ItemModel, Value,
    ValueModel,
};
use vstd::prelude::*;

verus! {

/// What every line of an indented block starts with.
pub open spec fn padding() -> Seq<char> {
    seq![' ', ' ', ' ', ' ']
}

/// The text with the padding before each of its lines: before its first
/// character, and behind every line feed but one that ends the text.
pub open spec fn indented(text: Seq<char>) -> Seq<char>
    decreases text.len(),
{
    if text.len() == 0 {
        Seq::empty()
    } else {
        let front = text.drop_last();
        if front.len() == 0 || front.last() == '\n' {
            indented(front) + padding() + seq![text.last()]
        } else {
            indented(front).push(text.last())
        }
    }
}

/// A value as one expression. In its expanded form (`alternate`) an array
/// takes one line for each item.
pub open spec fn inline_value(value: ValueModel, alternate: bool) -> Seq<char>
    decreases value, 1nat,
{
    match value {
        ValueModel::Primitive(primitive) => primitive_text(primitive),
        ValueModel::Array(items) => inline_array(items, alternate),
        ValueModel::Table(entries) => inline_table(entries, alternate),
    }
}

/// The items of an array on one line, `, ` between every two. Their
/// comments are left out.
pub open spec fn compact_items(items: Seq<ItemModel>) -> Seq<char>
    decreases items, 0nat,
{
    if items.len() == 0 {
        Seq::empty()
    } else if items.len() == 1 {
        inline_value(items.last().value, false)
    } else {
        compact_items(items.drop_last()) + seq![',', ' '] + inline_value(
            items.last().value,
            false,
        )
    }
}

/// The items of an array, each on lines of its own: the comments before it,
/// the item, a comma, the comments behind it, a line feed.
pub open spec fn item_lines(items: Seq<ItemModel>) -> Seq<char>
    decreases items, 0nat,
{
    if items.len() == 0 {
        Seq::empty()
    } else {
        item_lines(items.drop_last()) + pre_lines(items.last().comments) + inline_value(
            items.last().value,
            true,
        ) + seq![','] + post_tail(items.last().comments) + seq!['\n']
    }
}

/// An array as one expression: `[]` where it is empty; else its items on one
/// line between `[` and `]`, or, in the expanded form, `[`, a line feed, the
/// indented lines of the items, and `]`.
pub open spec fn inline_array(items: Seq<ItemModel>, alternate: bool) -> Seq<char>
    decreases items, 1nat,
{
    if items.len() == 0 {
        seq!['[', ']']
    } else if alternate {
        seq!['[', '\n'] + indented(item_lines(items)) + seq![']']
    } else {
        seq!['['] + compact_items(items) + seq![']']
    }
}

/// The entries of a table on one line, each as `key = value`, `, ` between
/// every two. Their comments are left out.
pub open spec fn inline_entries(entries: Seq<EntryModel>, alternate: bool) -> Seq<char>
    decreases entries, 0nat,
{
    if entries.len() == 0 {
        Seq::empty()
    } else {
        let last = segment_text(entries.last().key) + seq![' ', '=', ' '] + inline_value(
            entries.last().item.value,
            alternate,
        );
        if entries.len() == 1 {
            last
        } else {
            inline_entries(entries.drop_last(), alternate) + seq![',', ' '] + last
        }
    }
}

/// A table as one expression: `{}` where it is empty, else its entries
/// between `{ ` and ` }`.
pub open spec fn inline_table(entries: Seq<EntryModel>, alternate: bool) -> Seq<char>
    decreases entries, 1nat,
{
    if entries.len() == 0 {
        seq!['{', '}']
    } else {
        seq!['{', ' '] + inline_entries(entries, alternate) + seq![' ', '}']
    }
}

/// Appends `text` with the padding before each of its lines.
pub fn push_indented(out: &mut String, text: &str)
    ensures
        final(out)@ == old(out)@ + indented(text@),
{
    broadcast use vstd::string::group_string_axioms;

    let mut at_line_start = true;
    for c in it: text.chars()
        invariant
            it.seq() == text@,
            out@ == old(out)@ + indented(text@.take(it.index())),
            at_line_start == (it.index() == 0 || text@[it.index() - 1] == '\n'),
    {
        proof {
            let next = text@.take(it.index() + 1);
            assert(next.drop_last() == text@.take(it.index()));
            assert(next.last() == c);
            if it.index() > 0 {
                assert(text@.take(it.index()).last() == text@[it.index() - 1]);
            }
        }
        if at_line_start {
            out.push(' ');
            out.push(' ');
            out.push(' ');
            out.push(' ');
        }
        out.push(c);
        at_line_start = c == '\n';
    }
    proof {
        assert(text@.take(text@.len() as int) == text@);
    }
}

/// Appends the segment of text `key` as it stands in a key.
pub fn push_segment(out: &mut String, key: &str)
    ensures
        final(out)@ == old(out)@ + segment_text(key@),
{
    let segment = Segment::new(key).to_string();
    push_text(out, segment.as_str());
}

/// Appends `value` as one expression.
pub fn write_value(out: &mut String, value: &Value, alternate: bool)
    ensures
        final(out)@ == old(out)@ + inline_value(value@, alternate),
    decreases value@, 1nat,
{
    match value {
        Value::Primitive(primitive) => {
            let text = primitive.to_string();
            push_text(out, text.as_str());
        },
        Value::Array(array) => write_array(out, array, alternate),
        Value::Table(table) => write_table(out, table, alternate),
    }
}

/// Appends `array` as one expression.
pub fn write_array(out: &mut String, array: &Array, alternate: bool)
    ensures
        final(out)@ == old(out)@ + inline_array(array@, alternate),
    decreases ValueModel::Array(array@), 0nat,
{
    let ghost items = array@;
    proof {
        lemma_items_view(array.0@);
    }
    out.push('[');
    if array.0.len() > 0 {
        if alternate {
            out.push('\n');
            let mut lines = String::new();
            let mut i: usize = 0;
            while i < array.0.len()
                invariant
                    i <= array.0@.len(),
                    items == array@,
                    items.len() == array.0@.len(),
                    forall|j: int|
                        0 <= j < items.len() ==> (#[trigger] items[j]) == item_view(array.0@[j]),
                    lines@ == item_lines(items.take(i as int)),
                decreases array.0@.len() - i,
            {
                let item = &array.0[i];
                proof {
                    assert(items.take(i + 1).drop_last() == items.take(i as int));
                    assert(items.take(i + 1).last() == item@);
                    let whole = ValueModel::Array(items);
                    assert(decreases_to!(whole => whole->Array_0));
                    assert(decreases_to!(items => items[i as int]));
                    assert(decreases_to!(items[i as int] => items[i as int].value));
                }
                push_pre(&mut lines, &item.comments);
                write_value(&mut lines, &item.value, true);
                lines.push(',');
                push_post(&mut lines, &item.comments);
                lines.push('\n');
                i += 1;
            }
            proof {
                assert(items.take(items.len() as int) == items);
            }
            push_indented(out, lines.as_str());
        } else {
            let ghost start = out@;
            let mut i: usize = 0;
            while i < array.0.len()
                invariant
                    i <= array.0@.len(),
                    items == array@,
                    items.len() == array.0@.len(),
                    forall|j: int|
                        0 <= j < items.len() ==> (#[trigger] items[j]) == item_view(array.0@[j]),
                    out@ == start + compact_items(items.take(i as int)),
                decreases array.0@.len() - i,
            {
                let item = &array.0[i];
                proof {
                    assert(items.take(i + 1).drop_last() == items.take(i as int));
                    assert(items.take(i + 1).last() == item@);
                    let whole = ValueModel::Array(items);
                    assert(decreases_to!(whole => whole->Array_0));
                    assert(decreases_to!(items => items[i as int]));
                    assert(decreases_to!(items[i as int] => items[i as int].value));
                }
                if i != 0 {
                    out.push(',');
                    out.push(' ');
                }
                write_value(out, &item.value, false);
                i += 1;
            }
            proof {
                assert(items.take(items.len() as int) == items);
            }
        }
    }
    out.push(']');
}

/// Appends `table` as one expression.
pub fn write_table(out: &mut String, table: &Table, alternate: bool)
    ensures
        final(out)@ == old(out)@ + inline_table(table@, alternate),
    decreases ValueModel::Table(table@), 0nat,
{
    let ghost entries = table@;
    out.push('{');
    let count = table.len();
    if count > 0 {
        out.push(' ');
        let ghost start = out@;
        let mut i: usize = 0;
        while i < count
            invariant
                i <= count,
                count == entries.len(),
                entries == table@,
                out@ == start + inline_entries(entries.take(i as int), alternate),
            decreases count - i,
        {
            let ghost before = out@;
            let ghost done = entries.take(i as int);
            let ghost entry = entries[i as int];
            let ghost piece = segment_text(entry.key) + seq![' ', '=', ' '] + inline_value(
                entry.item.value,
                alternate,
            );
            proof {
                assert(entries.take(i + 1).drop_last() == done);
                assert(entries.take(i + 1).last() == entry);
                assert(inline_entries(entries.take(i + 1), alternate) == if i == 0 {
                    piece
                } else {
                    inline_entries(done, alternate) + seq![',', ' '] + piece
                });
            }
            match table.get_index(i) {
                Some((key, item)) => {
                    proof {
                        let whole = ValueModel::Table(entries);
                        assert(decreases_to!(whole => whole->Table_0));
                        assert(decreases_to!(entries => entries[i as int]));
                        assert(decreases_to!(entries[i as int] => entries[i as int].item));
                        assert(decreases_to!(entries[i as int].item => entries[i as int].item.value));
                    }
                    if i != 0 {
                        out.push(',');
                        out.push(' ');
                    }
                    push_segment(out, key.as_str());
                    out.push(' ');
                    out.push('=');
                    out.push(' ');
                    write_value(out, &item.value, alternate);
                    proof {
                        if i == 0 {
                            assert(done.len() == 0);
                            assert(out@ == start + piece);
                        } else {
                            assert(out@ == start + (inline_entries(done, alternate) + seq![',', ' ']
                                + piece));
                        }
                    }
                },
                None => {
                    proof {
                        assert(false);
                    }
                },
            }
            i += 1;
        }
        proof {
            assert(entries.take(entries.len() as int) == entries);
        }
        out.push(' ');
    }
    out.push('}');
}

/// The groups of comments that the one-expression form of a value leaves
/// out, inner ones first.
pub open spec fn omitted_in_value(value: ValueModel, alternate: bool) -> Seq<
    Seq<crate::comment::Kind<Seq<char>>>,
>
    decreases value, 1nat,
{
    match value {
        ValueModel::Primitive(_) => Seq::empty(),
        ValueModel::Array(items) => omitted_in_items(items, alternate),
        ValueModel::Table(entries) => omitted_in_entries(entries, alternate),
    }
}

/// The groups of comments that the form of an array leaves out: those
/// inside its items and, where the items stand on one line, those of the
/// items themselves.
pub open spec fn omitted_in_items(items: Seq<ItemModel>, alternate: bool) -> Seq<
    Seq<crate::comment::Kind<Seq<char>>>,
>
    decreases items, 0nat,
{
    if items.len() == 0 {
        Seq::empty()
    } else {
        let inner = omitted_in_items(items.drop_last(), alternate) + omitted_in_value(
            items.last().value,
            alternate,
        );
        if !alternate && items.last().comments.len() > 0 {
            inner.push(items.last().comments)
        } else {
            inner
        }
    }
}

/// The groups of comments that the form of a table leaves out: those inside
/// its items, and those of the items themselves.
pub open spec fn omitted_in_entries(entries: Seq<EntryModel>, alternate: bool) -> Seq<
    Seq<crate::comment::Kind<Seq<char>>>,
>
    decreases entries, 0nat,
{
    if entries.len() == 0 {
        Seq::empty()
    } else {
        let inner = omitted_in_entries(entries.drop_last(), alternate) + omitted_in_value(
            entries.last().item.value,
            alternate,
        );
        if entries.last().item.comments.len() > 0 {
            inner.push(entries.last().item.comments)
        } else {
            inner
        }
    }
}

/// The views of a list of groups of comments.
pub open spec fn groups_view(groups: Seq<&Comments>) -> Seq<Seq<crate::comment::Kind<Seq<char>>>> {
    groups.map_values(|group: &Comments| group@)
}

/// Adds to `out` the groups of comments that the one-expression form of
/// `value` leaves out, inner ones first.
pub fn collect_omitted<'a>(out: &mut Vec<&'a Comments>, value: &'a Value, alternate: bool)
    ensures
        groups_view(final(out)@) == groups_view(old(out)@) + omitted_in_value(value@, alternate),
    decreases value@, 1nat,
{
    match value {
        Value::Primitive(_) => {
            proof {
                assert(groups_view(out@) + Seq::<Seq<crate::comment::Kind<Seq<char>>>>::empty()
                    == groups_view(out@));
            }
        },
        Value::Array(array) => collect_omitted_in_array(out, array, alternate),
        Value::Table(table) => collect_omitted_in_table(out, table, alternate),
    }
}

/// Adds to `out` the groups of comments that the one-expression form of
/// `array` leaves out, inner ones first.
pub fn collect_omitted_in_array<'a>(out: &mut Vec<&'a Comments>, array: &'a Array, alternate: bool)
    ensures
        groups_view(final(out)@) == groups_view(old(out)@) + omitted_in_items(array@, alternate),
    decreases ValueModel::Array(array@), 0nat,
{
    let ghost start = groups_view(out@);
    let ghost items = array@;
    proof {
        lemma_items_view(array.0@);
        assert(start + omitted_in_items(items.take(0), alternate) == start);
    }
    let mut i: usize = 0;
    while i < array.0.len()
        invariant
            i <= array.0@.len(),
            items == array@,
            items.len() == array.0@.len(),
            forall|j: int| 0 <= j < items.len() ==> (#[trigger] items[j]) == item_view(array.0@[j]),
            groups_view(out@) == start + omitted_in_items(items.take(i as int), alternate),
        decreases array.0@.len() - i,
    {
        let item = &array.0[i];
        let ghost done = omitted_in_items(items.take(i as int), alternate);
        let ghost inner = omitted_in_value(item.value@, alternate);
        proof {
            assert(items.take(i + 1).drop_last() == items.take(i as int));
            assert(items.take(i + 1).last() == item@);
            let whole = ValueModel::Array(items);
            assert(decreases_to!(whole => whole->Array_0));
            assert(decreases_to!(items => items[i as int]));
            assert(decreases_to!(items[i as int] => items[i as int].value));
        }
        collect_omitted(out, &item.value, alternate);
        proof {
            assert(start + done + inner == start + (done + inner));
        }
        if !alternate && !item.comments.is_empty() {
            let ghost before = out@;
            out.push(&item.comments);
            proof {
                assert(groups_view(out@) == groups_view(before).push(item.comments@));
                assert(start + (done + inner).push(item.comments@) == (start + (done
                    + inner)).push(item.comments@));
            }
        }
        i += 1;
    }
    proof {
        assert(items.take(items.len() as int) == items);
    }
}

/// Adds to `out` the groups of comments that the one-expression form of
/// `table` leaves out, inner ones first.
pub fn collect_omitted_in_table<'a>(out: &mut Vec<&'a Comments>, table: &'a Table, alternate: bool)
    ensures
        groups_view(final(out)@) == groups_view(old(out)@) + omitted_in_entries(table@, alternate),
    decreases ValueModel::Table(table@), 0nat,
{
    let ghost start = groups_view(out@);
    let ghost entries = table@;
    let count = table.len();
    proof {
        assert(start + omitted_in_entries(entries.take(0), alternate) == start);
    }
    let mut i: usize = 0;
    while i < count
        invariant
            i <= count,
            count == entries.len(),
            entries == table@,
            groups_view(out@) == start + omitted_in_entries(entries.take(i as int), alternate),
        decreases count - i,
    {
        let ghost done = omitted_in_entries(entries.take(i as int), alternate);
        match table.get_index(i) {
            Some((_, item)) => {
                let ghost inner = omitted_in_value(item.value@, alternate);
                proof {
                    assert(entries.take(i + 1).drop_last() == entries.take(i as int));
                    assert(entries.take(i + 1).last() == entries[i as int]);
                    let whole = ValueModel::Table(entries);
                    assert(decreases_to!(whole => whole->Table_0));
                    assert(decreases_to!(entries => entries[i as int]));
                    assert(decreases_to!(entries[i as int] => entries[i as int].item));
                    assert(decreases_to!(entries[i as int].item => entries[i as int].item.value));
                }
                collect_omitted(out, &item.value, alternate);
                proof {
                    assert(start + done + inner == start + (done + inner));
                }
                if !item.comments.is_empty() {
                    let ghost before = out@;
                    out.push(&item.comments);
                    proof {
                        assert(groups_view(out@) == groups_view(before).push(item.comments@));
                        assert(start + (done + inner).push(item.comments@) == (start + (done
                            + inner)).push(item.comments@));
                    }
                }
            },
            None => {
                proof {
                    assert(false);
                }
            },
        }
        i += 1;
    }
    proof {
        assert(entries.take(entries.len() as int) == entries);
    }
}

/// Something to write as one expression: an item, a value, an array or a
/// table, owned or borrowed.
#[derive(Clone, Debug)]
pub struct Inline<T>(pub T);

impl<T> Inline<T> {
    /// Wraps what is to be written.
    pub fn new(inner: T) -> (inline: Inline<T>)
        ensures
            inline.0 == inner,
    {
        Inline(inner)
    }
}

impl Inline<Value> {
    /// The value as one expression, arrays on one line.
    pub fn to_string(&self) -> (text: String)
        ensures
            text@ == inline_value(self.0@, false),
    {
        let mut text = String::new();
        write_value(&mut text, &self.0, false);
        text
    }

    /// The value as one expression, arrays with one line for each item.
    pub fn to_pretty_string(&self) -> (text: String)
        ensures
            text@ == inline_value(self.0@, true),
    {
        let mut text = String::new();
        write_value(&mut text, &self.0, true);
        text
    }
}

impl<'a> Inline<&'a Value> {
    /// The groups of comments that the one-expression form leaves out,
    /// inner ones first. That form has no place for them: who writes it may
    /// want to warn of them.
    pub fn omitted(&self, alternate: bool) -> (groups: Vec<&'a Comments>)
        ensures
            groups_view(groups@) == omitted_in_value(self.0@, alternate),
    {
        let mut groups: Vec<&'a Comments> = Vec::new();
        proof {
            assert(groups_view(groups@) + omitted_in_value(self.0@, alternate) == omitted_in_value(
                self.0@,
                alternate,
            ));
        }
        collect_omitted(&mut groups, self.0, alternate);
        groups
    }

    /// The value as one expression, arrays on one line.
    pub fn to_string(&self) -> (text: String)
        ensures
            text@ == inline_value(self.0@, false),
    {
        let mut text = String::new();
        write_value(&mut text, self.0, false);
        text
    }

    /// The value as one expression, arrays with one line for each item.
    pub fn to_pretty_string(&self) -> (text: String)
        ensures
            text@ == inline_value(self.0@, true),
    {
        let mut text = String::new();
        write_value(&mut text, self.0, true);
        text
    }
}

impl Inline<Item> {
    /// The value of the item as one expression, arrays on one line.
    pub fn to_string(&self) -> (text: String)
        ensures
            text@ == inline_value(self.0@.value, false),
    {
        let mut text = String::new();
        write_value(&mut text, &self.0.value, false);
        text
    }

    /// The value of the item as one expression, arrays with one line for
    /// each item.
    pub fn to_pretty_string(&self) -> (text: String)
        ensures
            text@ == inline_value(self.0@.value, true),
    {
        let mut text = String::new();
        write_value(&mut text, &self.0.value, true);
        text
    }
}

impl<'a> Inline<&'a Item> {
    /// The value of the item as one expression, arrays on one line.
    pub fn to_string(&self) -> (text: String)
        ensures
            text@ == inline_value(self.0@.value, false),
    {
        let mut text = String::new();
        write_value(&mut text, &self.0.value, false);
        text
    }

    /// The value of the item as one expression, arrays with one line for
    /// each item.
    pub fn to_pretty_string(&self) -> (text: String)
        ensures
            text@ == inline_value(self.0@.value, true),
    {
        let mut text = String::new();
        write_value(&mut text, &self.0.value, true);
        text
    }
}

impl Inline<Array> {
    /// The array as one expression, on one line.
    pub fn to_string(&self) -> (text: String)
        ensures
            text@ == inline_array(self.0@, false),
    {
        let mut text = String::new();
        write_array(&mut text, &self.0, false);
        text
    }

    /// The array as one expression, with one line for each item.
    pub fn to_pretty_string(&self) -> (text: String)
        ensures
            text@ == inline_array(self.0@, true),
    {
        let mut text = String::new();
        write_array(&mut text, &self.0, true);
        text
    }
}

impl<'a> Inline<&'a Array> {
    /// The groups of comments that the one-expression form leaves out,
    /// inner ones first.
    pub fn omitted(&self, alternate: bool) -> (groups: Vec<&'a Comments>)
        ensures
            groups_view(groups@) == omitted_in_items(self.0@, alternate),
    {
        let mut groups: Vec<&'a Comments> = Vec::new();
        proof {
            assert(groups_view(groups@) + omitted_in_items(self.0@, alternate) == omitted_in_items(
                self.0@,
                alternate,
            ));
        }
        collect_omitted_in_array(&mut groups, self.0, alternate);
        groups
    }

    /// The array as one expression, on one line.
    pub fn to_string(&self) -> (text: String)
        ensures
            text@ == inline_array(self.0@, false),
    {
        let mut text = String::new();
        write_array(&mut text, self.0, false);
        text
    }

    /// The array as one expression, with one line for each item.
    pub fn to_pretty_string(&self) -> (text: String)
        ensures
            text@ == inline_array(self.0@, true),
    {
        let mut text = String::new();
        write_array(&mut text, self.0, true);
        text
    }
}

impl Inline<Table> {
    /// The table as one expression, arrays on one line.
    pub fn to_string(&self) -> (text: String)
        ensures
            text@ == inline_table(self.0@, false),
    {
        let mut text = String::new();
        write_table(&mut text, &self.0, false);
        text
    }

    /// The table as one expression, arrays with one line for each item.
    pub fn to_pretty_string(&self) -> (text: String)
        ensures
            text@ == inline_table(self.0@, true),
    {
        let mut text = String::new();
        write_table(&mut text, &self.0, true);
        text
    }
}

impl<'a> Inline<&'a Table> {
    /// The groups of comments that the one-expression form leaves out,
    /// inner ones first.
    pub fn omitted(&self, alternate: bool) -> (groups: Vec<&'a Comments>)
        ensures
            groups_view(groups@) == omitted_in_entries(self.0@, alternate),
    {
        let mut groups: Vec<&'a Comments> = Vec::new();
        proof {
            assert(groups_view(groups@) + omitted_in_entries(self.0@, alternate)
                == omitted_in_entries(self.0@, alternate));
        }
        collect_omitted_in_table(&mut groups, self.0, alternate);
        groups
    }

    /// The table as one expression, arrays on one line.
    pub fn to_string(&self) -> (text: String)
        ensures
            text@ == inline_table(self.0@, false),
    {
        let mut text = String::new();
        write_table(&mut text, self.0, false);
        text
    }

    /// The table as one expression, arrays with one line for each item.
    pub fn to_pretty_string(&self) -> (text: String)
        ensures
            text@ == inline_table(self.0@, true),
    {
        let mut text = String::new();
        write_table(&mut text, self.0, true);
        text
    }
}

} // verus!
