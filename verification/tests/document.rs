use toml_tree::ast::{Data, Line, Lines, State};
use toml_tree::comment::{Comment, Kind as CommentKind};
use toml_tree::escape::unescape::unescape;
use toml_tree::escape::Mode;
use toml_tree::format::independent::{Independent, Kind};
use toml_tree::key::{Key, Segment};
use toml_tree::merge::MergeConflict;
use toml_tree::value::{Item, Shape, Table, Value};

fn key(texts: &[&str]) -> Key {
    Key::from_segments(texts.iter().map(|text| Segment::new(text)).collect())
}

fn header(texts: &[&str]) -> Line {
    Line { data: Some(Data::Header(Kind::Table(key(texts)))), meta: None }
}

fn element(texts: &[&str]) -> Line {
    Line { data: Some(Data::Header(Kind::ArrayOfTables(key(texts)))), meta: None }
}

fn pair(texts: &[&str], value: Value) -> Line {
    Line { data: Some(Data::KeyValue { key: key(texts), value }), meta: None }
}

fn comment(text: &str) -> Line {
    Line { data: None, meta: Some(CommentKind::Pre(text.to_string())) }
}

fn with(mut line: Line, comment: Comment) -> Line {
    line.meta = Some(comment);
    line
}

fn table(pairs: Vec<(&str, Value)>) -> Table {
    Table::from_pairs(pairs.into_iter().map(|(key, value)| (key.to_string(), value)).collect())
}

fn value(pairs: Vec<(&str, Value)>) -> Value {
    Value::from(table(pairs))
}

fn never(_key: &[&str]) -> bool {
    false
}

#[test]
fn document_of_headers_that_share_an_ancestor() {
    let lines = Lines(vec![
        header(&["a"]),
        pair(&["b"], Value::from(true)),
        header(&["a", "c"]),
        pair(&["d"], Value::from(true)),
    ]);
    assert_eq!(
        lines.into_table(),
        Ok(table(vec![(
            "a",
            value(vec![("b", Value::from(true)), ("c", value(vec![("d", Value::from(true))]))])
        )]))
    );
}

#[test]
fn document_without_lines_is_empty() {
    assert_eq!(Lines(vec![]).into_table(), Ok(Table::new()));
    assert_eq!(Table::from_lines(Lines(vec![comment(" alone")])), Ok(Table::new()));
    assert_eq!(State::new().into_table(), Ok(Table::new()));
}

#[test]
fn document_without_headers() {
    let lines = Lines(vec![
        pair(&["a"], Value::from(1)),
        pair(&["b", "c"], Value::from(2)),
        pair(&["b", "d"], Value::from(3)),
    ]);
    assert_eq!(
        lines.into_table(),
        Ok(table(vec![
            ("a", Value::from(1)),
            ("b", value(vec![("c", Value::from(2)), ("d", Value::from(3))])),
        ]))
    );
}

#[test]
fn document_keeps_the_order_of_first_declaration() {
    let lines = Lines(vec![
        pair(&["z"], Value::from(0)),
        header(&["b"]),
        pair(&["x"], Value::from(1)),
        header(&["a"]),
        pair(&["y"], Value::from(2)),
        header(&["b", "inner"]),
        pair(&["w"], Value::from(3)),
    ]);
    let document = lines.into_table().unwrap();
    let keys: Vec<&str> = (0..document.len()).map(|i| document.get_index(i).unwrap().0.as_str()).collect();
    assert_eq!(keys, ["z", "b", "a"]);
    assert_eq!(
        Independent::new(&document, never).to_string(),
        "z = 0\n\n[b]\nx = 1\n\n[b.inner]\nw = 3\n\n[a]\ny = 2\n"
    );
}

#[test]
fn document_with_an_array_of_tables() {
    let lines = Lines(vec![
        element(&["d"]),
        pair(&["x"], Value::from(1)),
        element(&["d"]),
        pair(&["x"], Value::from(2)),
        element(&["d"]),
    ]);
    let document = lines.into_table().unwrap();
    assert_eq!(
        document,
        table(vec![(
            "d",
            Value::from_values(vec![
                value(vec![("x", Value::from(1))]),
                value(vec![("x", Value::from(2))]),
                value(vec![]),
            ])
        )])
    );
    assert_eq!(
        Independent::new(&document, never).to_string(),
        "\n[[d]]\nx = 1\n\n[[d]]\nx = 2\n\n[[d]]\n"
    );
}

#[test]
fn document_attaches_comments() {
    let lines = Lines(vec![
        comment(" about a"),
        with(pair(&["a"], Value::from(1)), CommentKind::Post(" a".to_string())),
        comment(" about s"),
        comment(" more about s"),
        with(header(&["s"]), CommentKind::Post(" s".to_string())),
        pair(&["x"], Value::from(2)),
        comment(" about the element"),
        element(&["d"]),
        with(pair(&["y", "z"], Value::from(3)), CommentKind::Post(" z".to_string())),
        comment(" belongs to nothing"),
    ]);
    let document = lines.into_table().unwrap();
    assert_eq!(
        Independent::new(&document, never).to_string(),
        "# about a\na = 1 # a\n\
         \n# about s\n# more about s\n[s] # s\nx = 2\n\
         \n# about the element\n[[d]]\n\n[d.y]\nz = 3 # z\n"
    );
    assert!(document.get("d").unwrap().comments.is_empty());
    assert_eq!(
        document.get("s").unwrap().comments.0,
        [
            CommentKind::Pre(" about s".to_string()),
            CommentKind::Pre(" more about s".to_string()),
            CommentKind::Post(" s".to_string()),
        ]
    );
}

#[test]
fn document_merges_repeated_headers() {
    let lines = Lines(vec![
        with(header(&["s"]), CommentKind::Pre(" one".to_string())),
        pair(&["x"], Value::from(1)),
        header(&["t"]),
        with(header(&["s"]), CommentKind::Pre(" two".to_string())),
        pair(&["y"], Value::from(2)),
    ]);
    let document = lines.into_table().unwrap();
    assert_eq!(
        Independent::new(&document, never).to_string(),
        "\n# one\n# two\n[s]\nx = 1\ny = 2\n\n[t]\n"
    );
}

#[test]
fn document_conflicts() {
    let conflict = |path: &[&str], target, incoming| {
        Err(MergeConflict { path: path.iter().map(|key| key.to_string()).collect(), target, incoming })
    };
    assert_eq!(
        Lines(vec![pair(&["a"], Value::from(1)), pair(&["a"], Value::from(2))]).into_table(),
        conflict(&["a"], Shape::Primitive, Shape::Primitive)
    );
    assert_eq!(
        Lines(vec![pair(&["a"], Value::from(1)), header(&["a"]), pair(&["b"], Value::from(2))])
            .into_table(),
        conflict(&["a"], Shape::Primitive, Shape::Table)
    );
    assert_eq!(
        Lines(vec![header(&["s"]), pair(&["a"], Value::from(1)), pair(&["a", "b"], Value::from(2))])
            .into_table(),
        conflict(&["a"], Shape::Primitive, Shape::Table)
    );
    assert_eq!(
        Lines(vec![header(&["a", "b"]), element(&["a", "b"]), header(&["c"])]).into_table(),
        conflict(&["a", "b"], Shape::Table, Shape::Array)
    );
    assert_eq!(
        Lines(vec![element(&["a"]), header(&["a"])]).into_table(),
        conflict(&["a"], Shape::Array, Shape::Table)
    );
    assert_eq!(
        Lines(vec![
            pair(&["ok"], Value::from(1)),
            pair(&["x"], Value::from(1)),
            pair(&["x"], Value::from_values(vec![])),
            pair(&["ok"], Value::from(Table::new())),
        ])
        .into_table(),
        conflict(&["x"], Shape::Primitive, Shape::Array)
    );
}

#[test]
fn state_takes_declarations_under_its_header() {
    let mut state = State::new();
    assert_eq!(state.merge_current(value(vec![("a", Value::from(1))])), Ok(()));
    let outer = state.into_table().unwrap();
    assert_eq!(outer, table(vec![("a", Value::from(1))]));
    let mut state = State::Headed {
        comments: Default::default(),
        key: Kind::ArrayOfTables(key(&["s", "t"])),
        inner_table: Table::new(),
        outer_table: outer,
    };
    assert_eq!(state.merge_current(value(vec![("x", Value::from(2))])), Ok(()));
    assert_eq!(
        state.merge_current(Value::from(3)),
        Err(MergeConflict { path: vec![], target: Shape::Table, incoming: Shape::Primitive })
    );
    assert_eq!(
        state.into_table(),
        Ok(table(vec![
            ("a", Value::from(1)),
            (
                "s",
                value(vec![("t", Value::from_values(vec![value(vec![("x", Value::from(2))])]))])
            ),
        ]))
    );
    let _ = Item::of(Value::from(1));
}

/// The document of one line `key = false`, written out again, where the key
/// is one quoted segment. `body` is what stands between the quotes of the
/// key; between double quotes it holds escapes.
fn rewritten(body: &str, double: Option<Mode>) -> String {
    let text = match double {
        Some(mode) => unescape(body, mode).unwrap(),
        None => body.to_string(),
    };
    let lines = Lines(vec![pair(&[text.as_str()], Value::from(false))]);
    Independent::new(lines.into_table().unwrap(), never).to_string()
}

#[test]
fn temp() {
    assert_eq!(
        rewritten(r#"a """" = 'b'"#, Some(Mode::MultiLine)).trim(),
        r#""a \"\"\"\" = 'b'" = false"#
    );
}

#[test]
fn lib_test() {
    assert_eq!(rewritten(r#"a = "b""#, None).trim(), r#"'a = "b"' = false"#);
    assert_eq!(
        rewritten(r#"a = 'b'"#, Some(Mode::SingleLine)).trim(),
        r#""a = 'b'" = false"#
    );
    assert_eq!(
        rewritten(r#"a = \"b\""#, Some(Mode::SingleLine)).trim(),
        r#"'a = "b"' = false"#
    );
    assert_eq!(
        rewritten(r#"'a' = \"b\""#, Some(Mode::SingleLine)).trim(),
        r#""'a' = \"b\"" = false"#
    );
    assert_eq!(
        rewritten("a \n = 'b'", Some(Mode::MultiLine)).trim(),
        r#""a \n = 'b'" = false"#
    );
}
