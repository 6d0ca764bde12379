//! Building a document from the lines that a parser hands over.

use crate::comment::{Comment, Comments, Kind as CommentKind};
use crate::format::independent::Kind;
use crate::key::Key;
use crate::merge::{merge_value, wrap, ConflictModel, MergeConflict};
use crate::table::Table;
use crate::value::{Array, EntryModel, Item, ItemModel, Value, ValueModel};
use vstd::prelude::*;

verus! {

/// What a line declares.
#[derive(Debug)]
pub enum Data {
    /// A header: `[key]` or `[[key]]`.
    Header(Kind<Key>),
    /// A key with its value: `key = value`.
    KeyValue {
        /// The key, as a dotted path.
        key: Key,
        /// The value.
        value: Value,
    },
}

/// One line of a document: what it declares, if anything, and its comment,
/// if any.
#[derive(Debug)]
pub struct Line {
    /// What the line declares.
    pub data: Option<Data>,
    /// The comment on the line.
    pub meta: Option<Comment>,
}

/// The lines of a document, in the order of the text.
#[derive(Debug)]
pub struct Lines(pub Vec<Line>);

/// What a line declares, as a mathematical value.
pub enum DataModel {
    /// A header.
    Header {
        /// Does it open an element of an array of tables?
        array: bool,
        /// The texts of the segments of its key.
        key: Seq<Seq<char>>,
    },
    /// A key with its value.
    KeyValue {
        /// The texts of the segments of the key.
        key: Seq<Seq<char>>,
        /// The value.
        value: ValueModel,
    },
}

/// A line, as a mathematical value.
pub struct LineModel {
    /// What the line declares.
    pub data: Option<DataModel>,
    /// The comment on the line.
    pub meta: Option<CommentKind<Seq<char>>>,
}

impl View for Data {
    type V = DataModel;

    open spec fn view(&self) -> DataModel {
        match *self {
            Data::Header(Kind::ArrayOfTables(key)) => DataModel::Header {
                array: true,
                key: key.texts(),
            },
            Data::Header(Kind::Table(key)) => DataModel::Header { array: false, key: key.texts() },
            Data::KeyValue { key, value } => DataModel::KeyValue { key: key.texts(), value: value@ },
        }
    }
}

impl View for Line {
    type V = LineModel;

    open spec fn view(&self) -> LineModel {
        LineModel {
            data: match self.data {
                Some(data) => Some(data@),
                None => None,
            },
            meta: match self.meta {
                Some(comment) => Some(comment@),
                None => None,
            },
        }
    }
}

impl View for Lines {
    type V = Seq<LineModel>;

    open spec fn view(&self) -> Seq<LineModel> {
        self.0@.map_values(|line: Line| line@)
    }
}

/// Where the builder stands between two lines, as a mathematical value.
pub enum StateModel {
    /// No header was read yet.
    Unheaded {
        /// What was declared so far.
        table: Seq<EntryModel>,
    },
    /// A header was read.
    Headed {
        /// The comments of the header.
        comments: Seq<CommentKind<Seq<char>>>,
        /// The texts of the segments of the key of the header.
        key: Seq<Seq<char>>,
        /// Does the header open an element of an array of tables?
        array: bool,
        /// What was declared under the header so far.
        inner: Seq<EntryModel>,
        /// The document as it stood when the header was read.
        outer: Seq<EntryModel>,
    },
}

/// Merges `incoming` into the table of entries `entries`.
pub open spec fn merge_table(entries: Seq<EntryModel>, incoming: ValueModel) -> Result<
    Seq<EntryModel>,
    ConflictModel,
> {
    match merge_value(ValueModel::Table(entries), incoming) {
        Ok(ValueModel::Table(merged)) => Ok(merged),
        Ok(_) => Ok(entries),
        Err(conflict) => Err(conflict),
    }
}

impl StateModel {
    /// The table that declarations go to: the one under the header, or the
    /// document where no header was read.
    pub open spec fn current(self) -> Seq<EntryModel> {
        match self {
            StateModel::Unheaded { table } => table,
            StateModel::Headed { inner, .. } => inner,
        }
    }

    /// The same state with `table` as the table that declarations go to.
    pub open spec fn with_current(self, table: Seq<EntryModel>) -> StateModel {
        match self {
            StateModel::Unheaded { .. } => StateModel::Unheaded { table },
            StateModel::Headed { comments, key, array, inner, outer } => StateModel::Headed {
                comments,
                key,
                array,
                inner: table,
                outer,
            },
        }
    }

    /// What the section under the header brings to the document: its table,
    /// as an item with the comments of the header, alone in an array where
    /// the header opens an element of an array of tables, wrapped into the
    /// key of the header.
    pub open spec fn section(
        comments: Seq<CommentKind<Seq<char>>>,
        key: Seq<Seq<char>>,
        array: bool,
        inner: Seq<EntryModel>,
    ) -> ValueModel {
        let item = ItemModel { comments, value: ValueModel::Table(inner) };
        if array {
            wrap(key, ItemModel { comments: Seq::empty(), value: ValueModel::Array(seq![item]) })
        } else {
            wrap(key, item)
        }
    }

    /// The document that the state stands for: what was declared without a
    /// header, or the document as it stood at the header with the section
    /// merged into it.
    pub open spec fn resolve(self) -> Result<Seq<EntryModel>, ConflictModel> {
        match self {
            StateModel::Unheaded { table } => Ok(table),
            StateModel::Headed { comments, key, array, inner, outer } => merge_table(
                outer,
                Self::section(comments, key, array, inner),
            ),
        }
    }
}

/// The builder between two lines: its state, and the comments read since
/// the last declaration.
pub struct Progress {
    /// The state.
    pub state: StateModel,
    /// The comments that wait for the next declaration.
    pub pending: Seq<CommentKind<Seq<char>>>,
}

/// The comments that wait, with the comment of the line behind them if it
/// has one.
pub open spec fn gathered(
    pending: Seq<CommentKind<Seq<char>>>,
    meta: Option<CommentKind<Seq<char>>>,
) -> Seq<CommentKind<Seq<char>>> {
    match meta {
        Some(comment) => pending.push(comment),
        None => pending,
    }
}

/// Reads one line. A header closes the section before it and opens its own,
/// with the gathered comments as its comments. A key with its value is
/// wrapped into the key, with the gathered comments as the comments of the
/// innermost item, and merged into the current table. Any other line only
/// adds its comment to those that wait.
pub open spec fn feed(progress: Progress, line: LineModel) -> Result<Progress, ConflictModel> {
    let comments = gathered(progress.pending, line.meta);
    match line.data {
        Some(DataModel::Header { array, key }) => match progress.state.resolve() {
            Ok(outer) => Ok(
                Progress {
                    state: StateModel::Headed { comments, key, array, inner: Seq::empty(), outer },
                    pending: Seq::empty(),
                },
            ),
            Err(conflict) => Err(conflict),
        },
        Some(DataModel::KeyValue { key, value }) => match merge_table(
            progress.state.current(),
            wrap(key, ItemModel { comments, value }),
        ) {
            Ok(table) => Ok(
                Progress { state: progress.state.with_current(table), pending: Seq::empty() },
            ),
            Err(conflict) => Err(conflict),
        },
        None => Ok(Progress { state: progress.state, pending: comments }),
    }
}

/// Reads the lines in order, from the empty document on, up to the first
/// conflict.
pub open spec fn run(lines: Seq<LineModel>) -> Result<Progress, ConflictModel>
    decreases lines.len(),
{
    if lines.len() == 0 {
        Ok(
            Progress {
                state: StateModel::Unheaded { table: Seq::empty() },
                pending: Seq::empty(),
            },
        )
    } else {
        match run(lines.drop_last()) {
            Ok(progress) => feed(progress, lines.last()),
            Err(conflict) => Err(conflict),
        }
    }
}

/// The document that the lines declare: the state after the last line,
/// resolved. Comments behind the last declaration belong to nothing and are
/// dropped.
pub open spec fn document(lines: Seq<LineModel>) -> Result<Seq<EntryModel>, ConflictModel> {
    match run(lines) {
        Ok(progress) => progress.state.resolve(),
        Err(conflict) => Err(conflict),
    }
}

/// A conflict met while the first lines are read is the conflict of the
/// whole document.
pub proof fn lemma_run_conflict(lines: Seq<LineModel>, count: int)
    requires
        0 <= count <= lines.len(),
        run(lines.take(count)) is Err,
    ensures
        run(lines) == run(lines.take(count)),
    decreases lines.len() - count,
{
    if count < lines.len() {
        assert(lines.take(count + 1).drop_last() == lines.take(count));
        lemma_run_conflict(lines, count + 1);
    } else {
        assert(lines.take(count) == lines);
    }
}

/// Where the builder stands between two lines.
#[derive(Debug)]
pub enum State {
    /// No header was read yet.
    Unheaded {
        /// What was declared so far.
        table: Table,
    },
    /// A header was read.
    Headed {
        /// The comments of the header.
        comments: Comments,
        /// The key of the header, with its kind.
        key: Kind<Key>,
        /// What was declared under the header so far.
        inner_table: Table,
        /// The document as it stood when the header was read.
        outer_table: Table,
    },
}

impl View for State {
    type V = StateModel;

    open spec fn view(&self) -> StateModel {
        match *self {
            State::Unheaded { table } => StateModel::Unheaded { table: table@ },
            State::Headed { comments, key, inner_table, outer_table } => StateModel::Headed {
                comments: comments@,
                key: key.spec_inner().texts(),
                array: key is ArrayOfTables,
                inner: inner_table@,
                outer: outer_table@,
            },
        }
    }
}

impl State {
    /// The state before the first line.
    pub fn new() -> (state: State)
        ensures
            state@ == (StateModel::Unheaded { table: Seq::empty() }),
    {
        State::Unheaded { table: Table::new() }
    }

    /// The document that the state stands for.
    pub fn into_table(self) -> (table: Result<Table, MergeConflict>)
        ensures
            match self@.resolve() {
                Ok(entries) => table is Ok && table->Ok_0@ == entries,
                Err(conflict) => table is Err && table->Err_0@ == conflict,
            },
    {
        match self {
            State::Unheaded { table } => Ok(table),
            State::Headed { comments, key, inner_table, outer_table } => {
                let mut outer_table = outer_table;
                let mut item = Item::new(comments, Value::Table(inner_table));
                if let Kind::ArrayOfTables(_) = key {
                    let ghost element = item@;
                    let mut array = Array::new();
                    array.push(item);
                    proof {
                        assert(array@ == seq![element]);
                    }
                    item = Item::new(Comments::new(), Value::Array(array));
                }
                let value = Value::wrap(key.into_inner(), item);
                match outer_table.merge(value) {
                    Ok(()) => Ok(outer_table),
                    Err(conflict) => Err(conflict),
                }
            },
        }
    }

    /// Merges `value` into the table that declarations go to.
    pub fn merge_current(&mut self, value: Value) -> (result: Result<(), MergeConflict>)
        ensures
            match merge_table(old(self)@.current(), value@) {
                Ok(table) => result is Ok && final(self)@ == old(self)@.with_current(table),
                Err(conflict) => result is Err && result->Err_0@ == conflict,
            },
    {
        match self {
            State::Unheaded { table } => table.merge(value),
            State::Headed { inner_table, .. } => inner_table.merge(value),
        }
    }
}

impl Lines {
    /// The document that the lines declare, or the first conflict met while
    /// reading them.
    pub fn into_table(self) -> (table: Result<Table, MergeConflict>)
        ensures
            match document(self@) {
                Ok(entries) => table is Ok && table->Ok_0@ == entries,
                Err(conflict) => table is Err && table->Err_0@ == conflict,
            },
    {
        let ghost lines = self@;
        let mut state = State::new();
        let mut comments = Comments::new();
        let source = self.0;
        for line in it: source
            invariant
                it.seq() == source@,
                lines == self@,
                lines == source@.map_values(|line: Line| line@),
                run(lines.take(it.index())) == Ok::<Progress, ConflictModel>(
                    Progress { state: state@, pending: comments@ },
                ),
        {
            let ghost index = it.index();
            let ghost progress = Progress { state: state@, pending: comments@ };
            proof {
                assert(lines.take(index + 1).drop_last() == lines.take(index));
                assert(lines.take(index + 1).last() == line@);
            }
            let Line { data, meta } = line;
            comments.maybe_push(meta);
            match data {
                Some(Data::Header(key)) => {
                    let outer_table = match state.into_table() {
                        Ok(table) => table,
                        Err(conflict) => {
                            proof {
                                lemma_run_conflict(lines, index + 1);
                            }
                            return Err(conflict);
                        },
                    };
                    state = State::Headed {
                        comments,
                        key,
                        inner_table: Table::new(),
                        outer_table,
                    };
                    comments = Comments::new();
                },
                Some(Data::KeyValue { key, value }) => {
                    let value = Value::wrap(key, Item::new(comments, value));
                    comments = Comments::new();
                    match state.merge_current(value) {
                        Ok(()) => {},
                        Err(conflict) => {
                            proof {
                                lemma_run_conflict(lines, index + 1);
                            }
                            return Err(conflict);
                        },
                    }
                },
                None => {},
            }
        }
        proof {
            assert(lines.take(lines.len() as int) == lines);
        }
        state.into_table()
    }
}

impl Table {
    /// The document that the lines declare, or the first conflict met while
    /// reading them.
    pub fn from_lines(lines: Lines) -> (table: Result<Table, MergeConflict>)
        ensures
            match document(lines@) {
                Ok(entries) => table is Ok && table->Ok_0@ == entries,
                Err(conflict) => table is Err && table->Err_0@ == conflict,
            },
    {
        lines.into_table()
    }
}

} // verus!
