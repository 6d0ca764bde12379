use super::inline::{inline_value, push_segment, write_value};
use crate::comment::{post_tail, pre_lines, push_post, push_pre, strs_view, Comments};
use crate::key::{path_text, segment_text, Key};
use crate::table::Table;
use crate::text::push_text;
use crate::value::{item_view, lemma_items_view, Array, EntryModel, ItemModel, Value, ValueModel};
use vstd::prelude::*;

verus! {

/// The two kinds of section that a header can open.
#[derive(Clone, Copy, Debug)]
pub enum Kind<T, U = T> {
    /// An element of an array of tables, under `[[key]]`.
    ArrayOfTables(T),
    /// A table, under `[key]`.
    Table(U),
}

impl<T> Kind<T> {
    /// What the kind holds.
    pub open spec fn spec_inner(self) -> T {
        match self {
            Kind::ArrayOfTables(t) => t,
            Kind::Table(t) => t,
        }
    }

    /// Gives up the kind for what it holds.
    pub fn into_inner(self) -> (t: T)
        ensures
            t == self.spec_inner(),
    {
        match self {
            Kind::ArrayOfTables(t) => t,
            Kind::Table(t) => t,
        }
    }
}

/// What `is_inline` answers for the path of segments `path`.
pub open spec fn answers<F: Fn(&[&str]) -> bool>(is_inline: F, path: Seq<Seq<char>>) -> bool {
    exists|p: &[&str]| strs_view(p@) == path && call_ensures(is_inline, (p,), true)
}

/// Can `is_inline` be asked about every path, and does its answer depend on
/// the texts of the segments alone?
pub open spec fn is_predicate<F: Fn(&[&str]) -> bool>(is_inline: F) -> bool {
    &&& forall|p: &[&str]| call_requires(is_inline, (p,))
    &&& forall|p: &[&str], r: bool|
        call_ensures(is_inline, (p,), r) ==> r == answers(is_inline, strs_view(p@))
}

/// `is_inline` as a function on paths.
pub open spec fn predicate_of<F: Fn(&[&str]) -> bool>(is_inline: F) -> spec_fn(
    Seq<Seq<char>>,
) -> bool {
    |path: Seq<Seq<char>>| answers(is_inline, path)
}

/// Asks `is_inline` about `path`.
pub fn ask<F: Fn(&[&str]) -> bool>(is_inline: &F, path: &Vec<&str>) -> (inline: bool)
    requires
        is_predicate(*is_inline),
    ensures
        inline == answers(*is_inline, strs_view(path@)),
{
    is_inline(path.as_slice())
}

/// Is the array one of tables: not empty, and every item a table?
pub open spec fn is_array_of_tables(items: Seq<ItemModel>) -> bool {
    items.len() > 0 && all_tables(items)
}

/// Is every item a table?
pub open spec fn all_tables(items: Seq<ItemModel>) -> bool {
    forall|i: int| 0 <= i < items.len() ==> (#[trigger] items[i]).value is Table
}

/// Does a value get a section of its own: a table, or an array of tables,
/// that is not to be written inline?
pub open spec fn is_branch(value: ValueModel, inline: bool) -> bool {
    match value {
        ValueModel::Primitive(_) => false,
        ValueModel::Array(items) => is_array_of_tables(items) && !inline,
        ValueModel::Table(_) => !inline,
    }
}

/// Does the entry get a section of its own in a table that stands at
/// `prefix`?
pub open spec fn splits(
    entry: EntryModel,
    prefix: Seq<Seq<char>>,
    inline: spec_fn(Seq<Seq<char>>) -> bool,
) -> bool {
    is_branch(entry.item.value, inline(prefix.push(entry.key)))
}

/// The entries that are written as `key = value` lines, in order.
pub open spec fn leaves_of(
    entries: Seq<EntryModel>,
    prefix: Seq<Seq<char>>,
    inline: spec_fn(Seq<Seq<char>>) -> bool,
) -> Seq<EntryModel>
    decreases entries.len(),
{
    if entries.len() == 0 {
        Seq::empty()
    } else {
        let front = leaves_of(entries.drop_last(), prefix, inline);
        if splits(entries.last(), prefix, inline) {
            front
        } else {
            front.push(entries.last())
        }
    }
}

/// The entries that get sections of their own, in order.
pub open spec fn branches_of(
    entries: Seq<EntryModel>,
    prefix: Seq<Seq<char>>,
    inline: spec_fn(Seq<Seq<char>>) -> bool,
) -> Seq<EntryModel>
    decreases entries.len(),
{
    if entries.len() == 0 {
        Seq::empty()
    } else {
        let front = branches_of(entries.drop_last(), prefix, inline);
        if splits(entries.last(), prefix, inline) {
            front.push(entries.last())
        } else {
            front
        }
    }
}

/// The line of a leaf: the comments before it, `key = value`, the comments
/// behind it, a line feed.
pub open spec fn leaf_text(entry: EntryModel, alternate: bool) -> Seq<char> {
    pre_lines(entry.item.comments) + segment_text(entry.key) + seq![' ', '=', ' ']
        + inline_value(entry.item.value, alternate) + post_tail(entry.item.comments) + seq!['\n']
}

/// The lines of the leaves, in order.
pub open spec fn leaves_text(leaves: Seq<EntryModel>, alternate: bool) -> Seq<char>
    decreases leaves.len(),
{
    if leaves.len() == 0 {
        Seq::empty()
    } else {
        leaves_text(leaves.drop_last(), alternate) + leaf_text(leaves.last(), alternate)
    }
}

/// The header of a section: an empty line, the comments before the header,
/// the key between `[` and `]` (doubled for an element of an array of
/// tables), the comments behind it, a line feed.
pub open spec fn header_text(head: Head) -> Seq<char> {
    seq!['\n'] + pre_lines(head.comments) + (if head.array {
        seq!['[', '[']
    } else {
        seq!['[']
    }) + path_text(head.path) + (if head.array {
        seq![']', ']']
    } else {
        seq![']']
    }) + post_tail(head.comments) + seq!['\n']
}

/// What stands above a section.
pub struct Head {
    /// The texts of the segments of the key, from the root on.
    pub path: Seq<Seq<char>>,
    /// Is the section an element of an array of tables?
    pub array: bool,
    /// The comments of the section.
    pub comments: Seq<crate::comment::Kind<Seq<char>>>,
}

/// Is the header of a section written? That of a table is left out where
/// the table has no leaf but has a branch; that of an element of an array of
/// tables is always written.
pub open spec fn shows_header(
    head: Head,
    entries: Seq<EntryModel>,
    inline: spec_fn(Seq<Seq<char>>) -> bool,
) -> bool {
    ||| head.array
    ||| leaves_of(entries, head.path, inline).len() > 0
    ||| branches_of(entries, head.path, inline).len() == 0
}

/// A table as a section: its header where it has one and the header is
/// written, then its leaves, then its branches.
pub open spec fn section_text(
    entries: Seq<EntryModel>,
    head: Option<Head>,
    inline: spec_fn(Seq<Seq<char>>) -> bool,
    alternate: bool,
) -> Seq<char>
    decreases entries, 3nat,
{
    let prefix = match head {
        Some(h) => h.path,
        None => Seq::empty(),
    };
    let header = match head {
        Some(h) => if shows_header(h, entries, inline) {
            header_text(h)
        } else {
            Seq::empty()
        },
        None => Seq::empty(),
    };
    header + leaves_text(leaves_of(entries, prefix, inline), alternate) + branches_text(
        entries,
        prefix,
        inline,
        alternate,
    )
}

/// The sections of the entries that get one, in order.
pub open spec fn branches_text(
    entries: Seq<EntryModel>,
    prefix: Seq<Seq<char>>,
    inline: spec_fn(Seq<Seq<char>>) -> bool,
    alternate: bool,
) -> Seq<char>
    decreases entries, 2nat,
{
    if entries.len() == 0 {
        Seq::empty()
    } else {
        let front = branches_text(entries.drop_last(), prefix, inline, alternate);
        if splits(entries.last(), prefix, inline) {
            front + branch_text(
                prefix.push(entries.last().key),
                entries.last().item,
                inline,
                alternate,
            )
        } else {
            front
        }
    }
}

/// The section of one branch: that of its table, or those of the elements
/// of its array of tables.
pub open spec fn branch_text(
    path: Seq<Seq<char>>,
    item: ItemModel,
    inline: spec_fn(Seq<Seq<char>>) -> bool,
    alternate: bool,
) -> Seq<char>
    decreases item, 1nat,
{
    match item.value {
        ValueModel::Primitive(_) => Seq::empty(),
        ValueModel::Array(items) => elements_text(path, items, inline, alternate),
        ValueModel::Table(entries) => section_text(
            entries,
            Some(Head { path, array: false, comments: item.comments }),
            inline,
            alternate,
        ),
    }
}

/// The sections of the elements of an array of tables, in order, each with
/// the comments of its element.
pub open spec fn elements_text(
    path: Seq<Seq<char>>,
    items: Seq<ItemModel>,
    inline: spec_fn(Seq<Seq<char>>) -> bool,
    alternate: bool,
) -> Seq<char>
    decreases items, 0nat,
{
    if items.len() == 0 {
        Seq::empty()
    } else {
        elements_text(path, items.drop_last(), inline, alternate) + (match items.last().value {
            ValueModel::Table(entries) => section_text(
                entries,
                Some(Head { path, array: true, comments: items.last().comments }),
                inline,
                alternate,
            ),
            _ => Seq::empty(),
        })
    }
}

/// The sections of the given branches of a table that stands at `prefix`,
/// in order.
pub open spec fn branches_block(
    branches: Seq<EntryModel>,
    prefix: Seq<Seq<char>>,
    inline: spec_fn(Seq<Seq<char>>) -> bool,
    alternate: bool,
) -> Seq<char>
    decreases branches.len(),
{
    if branches.len() == 0 {
        Seq::empty()
    } else {
        branches_block(branches.drop_last(), prefix, inline, alternate) + branch_text(
            prefix.push(branches.last().key),
            branches.last().item,
            inline,
            alternate,
        )
    }
}

/// A document as text: the table at the root as a section without header.
pub open spec fn independent_text(
    entries: Seq<EntryModel>,
    inline: spec_fn(Seq<Seq<char>>) -> bool,
    alternate: bool,
) -> Seq<char> {
    section_text(entries, None, inline, alternate)
}

/// The sections of the entries of a table are the sections of its branches.
pub proof fn lemma_branches_block(
    entries: Seq<EntryModel>,
    prefix: Seq<Seq<char>>,
    inline: spec_fn(Seq<Seq<char>>) -> bool,
    alternate: bool,
)
    ensures
        branches_text(entries, prefix, inline, alternate) == branches_block(
            branches_of(entries, prefix, inline),
            prefix,
            inline,
            alternate,
        ),
    decreases entries.len(),
{
    if entries.len() > 0 {
        lemma_branches_block(entries.drop_last(), prefix, inline, alternate);
        let front = branches_of(entries.drop_last(), prefix, inline);
        if splits(entries.last(), prefix, inline) {
            assert(front.push(entries.last()).drop_last() == front);
        }
    }
}

/// Every branch of a table is one of its entries, and gets a section.
pub proof fn lemma_branches_are_entries(
    entries: Seq<EntryModel>,
    prefix: Seq<Seq<char>>,
    inline: spec_fn(Seq<Seq<char>>) -> bool,
    index: int,
) -> (place: int)
    requires
        0 <= index < branches_of(entries, prefix, inline).len(),
    ensures
        0 <= place < entries.len(),
        entries[place] == branches_of(entries, prefix, inline)[index],
        splits(entries[place], prefix, inline),
    decreases entries.len(),
{
    let front = branches_of(entries.drop_last(), prefix, inline);
    if index < front.len() {
        lemma_branches_are_entries(entries.drop_last(), prefix, inline, index)
    } else {
        entries.len() - 1
    }
}

/// An entry of a table that is written as a `key = value` line.
#[derive(Clone, Copy, Debug)]
pub struct Leaf<'a> {
    /// The comments of the entry.
    pub comments: &'a Comments,
    /// The text of the key.
    pub segment: &'a str,
    /// The value.
    pub value: &'a Value,
}

impl<'a> View for Leaf<'a> {
    type V = EntryModel;

    open spec fn view(&self) -> EntryModel {
        EntryModel {
            key: self.segment@,
            item: ItemModel { comments: self.comments@, value: self.value@ },
        }
    }
}

impl<'a> Leaf<'a> {
    /// The leaf of the given parts.
    pub fn new(comments: &'a Comments, segment: &'a str, value: &'a Value) -> (leaf: Leaf<'a>)
        ensures
            leaf.comments == comments,
            leaf.segment == segment,
            leaf.value == value,
    {
        Leaf { comments, segment, value }
    }

    /// Appends the line of the leaf.
    pub fn write(&self, out: &mut String, alternate: bool)
        ensures
            final(out)@ == old(out)@ + leaf_text(self@, alternate),
    {
        push_pre(out, self.comments);
        push_segment(out, self.segment);
        out.push(' ');
        out.push('=');
        out.push(' ');
        write_value(out, self.value, alternate);
        push_post(out, self.comments);
        out.push('\n');
    }

    /// The line of the leaf, arrays on one line.
    pub fn to_string(&self) -> (text: String)
        ensures
            text@ == leaf_text(self@, false),
    {
        let mut text = String::new();
        self.write(&mut text, false);
        text
    }
}

/// The items of an array of tables: the comments and the table of each.
pub open spec fn elements_view(elements: Seq<(&Comments, &Table)>) -> Seq<ItemModel> {
    elements.map_values(
        |element: (&Comments, &Table)|
            ItemModel { comments: element.0@, value: ValueModel::Table(element.1@) },
    )
}

impl Array {
    /// Is the array one of tables: not empty, and every item a table?
    pub fn is_array_of_tables(&self) -> (yes: bool)
        ensures
            yes == is_array_of_tables(self@),
    {
        proof {
            lemma_items_view(self.0@);
        }
        if self.0.len() == 0 {
            return false;
        }
        let mut i: usize = 0;
        while i < self.0.len()
            invariant
                i <= self.0@.len(),
                self@.len() == self.0@.len(),
                forall|j: int| 0 <= j < self@.len() ==> (#[trigger] self@[j]) == item_view(self.0@[j]),
                forall|j: int| 0 <= j < i ==> (#[trigger] self@[j]).value is Table,
            decreases self.0@.len() - i,
        {
            match &self.0[i].value {
                Value::Table(_) => {},
                _ => {
                    proof {
                        assert(!(self@[i as int].value is Table));
                    }
                    return false;
                },
            }
            i += 1;
        }
        true
    }

    /// The comments and the table of each item, where every item is a
    /// table.
    pub fn as_array_of_tables(&self) -> (tables: Option<Vec<(&Comments, &Table)>>)
        ensures
            tables is Some == all_tables(self@),
            tables matches Some(elements) ==> elements_view(elements@) == self@,
    {
        proof {
            lemma_items_view(self.0@);
        }
        let mut elements: Vec<(&Comments, &Table)> = Vec::new();
        let mut i: usize = 0;
        while i < self.0.len()
            invariant
                i <= self.0@.len(),
                self@.len() == self.0@.len(),
                forall|j: int| 0 <= j < self@.len() ==> (#[trigger] self@[j]) == item_view(self.0@[j]),
                elements@.len() == i,
                elements_view(elements@) == self@.take(i as int),
            decreases self.0@.len() - i,
        {
            let item = &self.0[i];
            let ghost before = elements@;
            match &item.value {
                Value::Table(table) => {
                    elements.push((&item.comments, table));
                    proof {
                        assert(elements_view(elements@) == elements_view(before).push(
                            self@[i as int],
                        ));
                        assert(self@.take(i + 1) == self@.take(i as int).push(self@[i as int]));
                    }
                },
                _ => {
                    proof {
                        assert(!(self@[i as int].value is Table));
                    }
                    return None;
                },
            }
            i += 1;
        }
        proof {
            assert(self@.take(self@.len() as int) == self@);
            assert forall|j: int| 0 <= j < self@.len() implies (#[trigger] self@[j]).value
                is Table by {
                assert(elements_view(elements@)[j] == self@[j]);
            }
        }
        Some(elements)
    }
}

/// An entry of a table that gets a section of its own.
#[derive(Clone, Debug)]
pub struct Branch<'a> {
    /// The texts of the segments of the key, from the root on.
    pub key: Vec<&'a str>,
    /// The comments of the entry.
    pub comments: &'a Comments,
    /// The table of the entry, or the comments and tables of the elements of
    /// its array.
    pub value: Kind<Vec<(&'a Comments, &'a Table)>, &'a Table>,
}

/// A branch, as a mathematical value.
pub struct BranchModel {
    /// The texts of the segments of the key, from the root on.
    pub path: Seq<Seq<char>>,
    /// The item of the entry.
    pub item: ItemModel,
}

impl<'a> View for Branch<'a> {
    type V = BranchModel;

    open spec fn view(&self) -> BranchModel {
        BranchModel {
            path: strs_view(self.key@),
            item: ItemModel {
                comments: self.comments@,
                value: match self.value {
                    Kind::ArrayOfTables(elements) => ValueModel::Array(elements_view(elements@)),
                    Kind::Table(table) => ValueModel::Table(table@),
                },
            },
        }
    }
}

/// A copy of the path.
pub fn copy_path<'a>(path: &Vec<&'a str>) -> (copy: Vec<&'a str>)
    ensures
        copy@ == path@,
{
    let mut copy: Vec<&'a str> = Vec::new();
    let mut i: usize = 0;
    while i < path.len()
        invariant
            i <= path@.len(),
            copy@ == path@.take(i as int),
        decreases path@.len() - i,
    {
        copy.push(path[i]);
        proof {
            assert(path@.take(i + 1) == path@.take(i as int).push(path@[i as int]));
        }
        i += 1;
    }
    proof {
        assert(path@.take(path@.len() as int) == path@);
    }
    copy
}

impl<'a> Branch<'a> {
    /// The branch of the given parts.
    pub fn new(
        key: Vec<&'a str>,
        comments: &'a Comments,
        value: Kind<Vec<(&'a Comments, &'a Table)>, &'a Table>,
    ) -> (branch: Branch<'a>)
        ensures
            branch.key == key,
            branch.comments == comments,
            branch.value == value,
    {
        Branch { key, comments, value }
    }

    /// The key of the branch, from the root on.
    pub fn key(&self) -> (key: Vec<&'a str>)
        ensures
            key@ == self.key@,
    {
        copy_path(&self.key)
    }

    /// The key of the branch, with the kind of header it stands in.
    pub fn header(&self) -> (header: Kind<Vec<&'a str>>)
        ensures
            header.spec_inner()@ == self.key@,
            header is ArrayOfTables == self.value is ArrayOfTables,
    {
        match self.value {
            Kind::ArrayOfTables(_) => Kind::ArrayOfTables(self.key()),
            Kind::Table(_) => Kind::Table(self.key()),
        }
    }

    /// Appends the section of the branch: that of its table, or those of
    /// the elements of its array.
    pub fn write<F: Fn(&[&str]) -> bool>(&self, out: &mut String, is_inline: &F, alternate: bool)
        requires
            is_predicate(*is_inline),
        ensures
            final(out)@ == old(out)@ + branch_text(
                self@.path,
                self@.item,
                predicate_of(*is_inline),
                alternate,
            ),
        decreases self@.item, 1nat,
    {
        let ghost inline = predicate_of(*is_inline);
        let ghost path = self@.path;
        match &self.value {
            Kind::ArrayOfTables(elements) => {
                let ghost items = elements_view(elements@);
                let ghost start = out@;
                let mut i: usize = 0;
                while i < elements.len()
                    invariant
                        i <= elements@.len(),
                        is_predicate(*is_inline),
                        inline == predicate_of(*is_inline),
                        path == strs_view(self.key@),
                        items == elements_view(elements@),
                        self@.item.value == ValueModel::Array(items),
                        out@ == start + elements_text(path, items.take(i as int), inline, alternate),
                    decreases elements@.len() - i,
                {
                    let (comments, table) = elements[i];
                    proof {
                        assert(items.take(i + 1).drop_last() == items.take(i as int));
                        assert(items.take(i + 1).last() == items[i as int]);
                        assert(items[i as int].value == ValueModel::Table(table@));
                        let whole = self@.item.value;
                        assert(decreases_to!(self@.item => whole));
                        assert(decreases_to!(whole => whole->Array_0));
                        assert(decreases_to!(items => items[i as int]));
                        assert(decreases_to!(items[i as int] => items[i as int].value));
                        assert(decreases_to!(items[i as int].value => items[i as int].value->Table_0));
                    }
                    write_section(out, table, Some((&self.key, true, comments)), is_inline, alternate);
                    i += 1;
                }
                proof {
                    assert(items.take(items.len() as int) == items);
                }
            },
            Kind::Table(table) => {
                proof {
                    let whole = self@.item.value;
                    assert(decreases_to!(self@.item => whole));
                    assert(decreases_to!(whole => whole->Table_0));
                }
                write_section(out, table, Some((&self.key, false, self.comments)), is_inline, alternate);
            },
        }
    }
}

/// The models of a list of leaves.
pub open spec fn leaves_view(leaves: Seq<Leaf>) -> Seq<EntryModel> {
    leaves.map_values(|leaf: Leaf| leaf@)
}

/// The entries that a list of branches stands for.
pub open spec fn branches_view(branches: Seq<Branch>) -> Seq<EntryModel> {
    branches.map_values(
        |branch: Branch| EntryModel { key: branch@.path.last(), item: branch@.item },
    )
}

/// Splits the entries of `table`, which stands at `prefix`, into those that
/// are written as `key = value` lines and those that get sections of their
/// own, each group in the order of the table.
pub fn partition<'a, F: Fn(&[&str]) -> bool>(
    table: &'a Table,
    prefix: &Vec<&'a str>,
    is_inline: &F,
) -> (parts: (Vec<Leaf<'a>>, Vec<Branch<'a>>))
    requires
        is_predicate(*is_inline),
    ensures
        leaves_view(parts.0@) == leaves_of(table@, strs_view(prefix@), predicate_of(*is_inline)),
        branches_view(parts.1@) == branches_of(
            table@,
            strs_view(prefix@),
            predicate_of(*is_inline),
        ),
        forall|j: int|
            0 <= j < parts.1@.len() ==> (#[trigger] parts.1@[j])@.path == strs_view(prefix@).push(
                branches_view(parts.1@)[j].key,
            ),
{
    let ghost entries = table@;
    let ghost base = strs_view(prefix@);
    let ghost inline = predicate_of(*is_inline);
    let mut leaves: Vec<Leaf<'a>> = Vec::new();
    let mut branches: Vec<Branch<'a>> = Vec::new();
    let count = table.len();
    let mut i: usize = 0;
    while i < count
        invariant
            i <= count,
            count == entries.len(),
            entries == table@,
            base == strs_view(prefix@),
            inline == predicate_of(*is_inline),
            is_predicate(*is_inline),
            leaves_view(leaves@) == leaves_of(entries.take(i as int), base, inline),
            branches_view(branches@) == branches_of(entries.take(i as int), base, inline),
            forall|j: int|
                0 <= j < branches@.len() ==> (#[trigger] branches@[j])@.path == base.push(
                    branches_view(branches@)[j].key,
                ),
        decreases count - i,
    {
        let ghost entry = entries[i as int];
        let ghost old_leaves = leaves@;
        let ghost old_branches = branches@;
        proof {
            assert(entries.take(i + 1).drop_last() == entries.take(i as int));
            assert(entries.take(i + 1).last() == entry);
        }
        match table.get_index(i) {
            Some((segment, item)) => {
                let mut key = copy_path(prefix);
                key.push(segment.as_str());
                proof {
                    assert(strs_view(key@) == base.push(entry.key));
                }
                let branch = match &item.value {
                    Value::Array(array) => {
                        if array.is_array_of_tables() && !ask(is_inline, &key) {
                            match array.as_array_of_tables() {
                                Some(elements) => Some(
                                    Branch::new(key, &item.comments, Kind::ArrayOfTables(elements)),
                                ),
                                None => None,
                            }
                        } else {
                            None
                        }
                    },
                    Value::Table(inner) => {
                        if !ask(is_inline, &key) {
                            Some(Branch::new(key, &item.comments, Kind::Table(inner)))
                        } else {
                            None
                        }
                    },
                    Value::Primitive(_) => None,
                };
                match branch {
                    Some(branch) => {
                        proof {
                            assert(splits(entry, base, inline));
                            assert(branch@.item == entry.item);
                            assert(branch@.path.last() == entry.key);
                        }
                        branches.push(branch);
                        proof {
                            assert(branches_view(branches@) == branches_view(old_branches).push(
                                entry,
                            ));
                        }
                    },
                    None => {
                        proof {
                            assert(!splits(entry, base, inline));
                        }
                        let leaf = Leaf::new(&item.comments, segment.as_str(), &item.value);
                        leaves.push(leaf);
                        proof {
                            assert(leaf@ == entry);
                            assert(leaves_view(leaves@) == leaves_view(old_leaves).push(entry));
                        }
                    },
                }
            },
            None => {
                proof {
                    assert(false);
                }
            },
        }
        i += 1;
    }
    proof {
        assert(entries.take(entries.len() as int) == entries);
    }
    (leaves, branches)
}

/// Appends the header of a section.
pub fn write_header(out: &mut String, path: &Vec<&str>, array: bool, comments: &Comments)
    ensures
        final(out)@ == old(out)@ + header_text(
            Head { path: strs_view(path@), array, comments: comments@ },
        ),
{
    out.push('\n');
    push_pre(out, comments);
    out.push('[');
    if array {
        out.push('[');
    }
    let key = Key::from_texts(path).to_string();
    push_text(out, key.as_str());
    out.push(']');
    if array {
        out.push(']');
    }
    push_post(out, comments);
    out.push('\n');
}

/// Appends the lines of the leaves, in order.
pub fn write_leaves(out: &mut String, leaves: &Vec<Leaf>, alternate: bool)
    ensures
        final(out)@ == old(out)@ + leaves_text(leaves_view(leaves@), alternate),
{
    let mut i: usize = 0;
    while i < leaves.len()
        invariant
            i <= leaves@.len(),
            out@ == old(out)@ + leaves_text(leaves_view(leaves@).take(i as int), alternate),
        decreases leaves@.len() - i,
    {
        proof {
            let shown = leaves_view(leaves@);
            assert(shown.take(i + 1).drop_last() == shown.take(i as int));
            assert(shown.take(i + 1).last() == leaves@[i as int]@);
        }
        leaves[i].write(out, alternate);
        i += 1;
    }
    proof {
        assert(leaves_view(leaves@).take(leaves@.len() as int) == leaves_view(leaves@));
    }
}

/// Appends `table` as a section: its header where it has one and the header
/// is written, then its leaves, then its branches. `head` holds the key of
/// the section from the root on, whether the section is an element of an
/// array of tables, and its comments; the table at the root has none.
pub fn write_section<'a, F: Fn(&[&str]) -> bool>(
    out: &mut String,
    table: &'a Table,
    head: Option<(&Vec<&'a str>, bool, &Comments)>,
    is_inline: &F,
    alternate: bool,
)
    requires
        is_predicate(*is_inline),
    ensures
        final(out)@ == old(out)@ + section_text(
            table@,
            head_view(head),
            predicate_of(*is_inline),
            alternate,
        ),
    decreases table@, 3nat,
{
    let ghost inline = predicate_of(*is_inline);
    let ghost entries = table@;
    let root: Vec<&'a str> = Vec::new();
    let prefix: &Vec<&'a str> = match head {
        Some((path, _, _)) => path,
        None => &root,
    };
    let ghost base = strs_view(prefix@);
    proof {
        assert(strs_view(root@) == Seq::<Seq<char>>::empty());
        lemma_branches_block(entries, base, inline, alternate);
    }
    let (leaves, branches) = partition(table, prefix, is_inline);
    if let Some((path, array, comments)) = head {
        if array || leaves.len() > 0 || branches.len() == 0 {
            write_header(out, path, array, comments);
        }
    }
    let ghost headed = out@;
    write_leaves(out, &leaves, alternate);
    let ghost leafed = out@;
    let ghost split = branches_view(branches@);
    proof {
        assert(leafed == headed + leaves_text(leaves_of(entries, base, inline), alternate));
    }
    let mut j: usize = 0;
    while j < branches.len()
        invariant
            j <= branches@.len(),
            is_predicate(*is_inline),
            inline == predicate_of(*is_inline),
            entries == table@,
            split == branches_view(branches@),
            split == branches_of(entries, base, inline),
            forall|k: int|
                0 <= k < branches@.len() ==> (#[trigger] branches@[k])@.path == base.push(split[k].key),
            out@ == leafed + branches_block(split.take(j as int), base, inline, alternate),
        decreases branches@.len() - j,
    {
        proof {
            assert(split.take(j + 1).drop_last() == split.take(j as int));
            assert(split.take(j + 1).last() == split[j as int]);
            assert(split[j as int].item == branches@[j as int]@.item);
            let place = lemma_branches_are_entries(entries, base, inline, j as int);
            assert(decreases_to!(entries => entries[place]));
            assert(decreases_to!(entries[place] => entries[place].item));
        }
        branches[j].write(out, is_inline, alternate);
        j += 1;
    }
    proof {
        assert(split.take(split.len() as int) == split);
        assert(out@ == leafed + branches_text(entries, base, inline, alternate));
    }
}

/// What stands above a section, as a mathematical value.
pub open spec fn head_view(head: Option<(&Vec<&str>, bool, &Comments)>) -> Option<Head> {
    match head {
        Some((path, array, comments)) => Some(
            Head { path: strs_view(path@), array, comments: comments@ },
        ),
        None => None,
    }
}

/// A table to write as a document of its own, with the predicate that says
/// which of its tables and arrays of tables are written inline.
#[derive(Clone, Copy, Debug)]
pub struct Independent<T, F> {
    table: T,
    is_inline: F,
}

impl<T, F: Fn(&[&str]) -> bool> Independent<T, F> {
    /// The document of `table`; `is_inline` is asked about the path of each
    /// table and array of tables.
    pub fn new(table: T, is_inline: F) -> (independent: Independent<T, F>)
        ensures
            independent.spec_table() == table,
            independent.spec_is_inline() == is_inline,
    {
        Independent { table, is_inline }
    }

    /// The table to write.
    pub closed spec fn spec_table(self) -> T {
        self.table
    }

    /// The predicate that says what is written inline.
    pub closed spec fn spec_is_inline(self) -> F {
        self.is_inline
    }
}

impl<F: Fn(&[&str]) -> bool> Independent<Table, F> {
    /// The document as text, arrays on one line.
    pub fn to_string(&self) -> (text: String)
        requires
            is_predicate(self.spec_is_inline()),
        ensures
            text@ == independent_text(
                self.spec_table()@,
                predicate_of(self.spec_is_inline()),
                false,
            ),
    {
        let mut text = String::new();
        write_section(&mut text, &self.table, None, &self.is_inline, false);
        text
    }

    /// The document as text, inline arrays with one line for each item.
    pub fn to_pretty_string(&self) -> (text: String)
        requires
            is_predicate(self.spec_is_inline()),
        ensures
            text@ == independent_text(
                self.spec_table()@,
                predicate_of(self.spec_is_inline()),
                true,
            ),
    {
        let mut text = String::new();
        write_section(&mut text, &self.table, None, &self.is_inline, true);
        text
    }
}

impl<'a, F: Fn(&[&str]) -> bool> Independent<&'a Table, F> {
    /// The document as text, arrays on one line.
    pub fn to_string(&self) -> (text: String)
        requires
            is_predicate(self.spec_is_inline()),
        ensures
            text@ == independent_text(
                self.spec_table()@,
                predicate_of(self.spec_is_inline()),
                false,
            ),
    {
        let mut text = String::new();
        write_section(&mut text, self.table, None, &self.is_inline, false);
        text
    }

    /// The document as text, inline arrays with one line for each item.
    pub fn to_pretty_string(&self) -> (text: String)
        requires
            is_predicate(self.spec_is_inline()),
        ensures
            text@ == independent_text(
                self.spec_table()@,
                predicate_of(self.spec_is_inline()),
                true,
            ),
    {
        let mut text = String::new();
        write_section(&mut text, self.table, None, &self.is_inline, true);
        text
    }
}

} // verus!
