use toml_tree::comment::{Comment, Comments, Kind};
use toml_tree::escape::Mode;
use toml_tree::quotes::{Quoted, Quotes};

#[test]
fn quoted_chooses_single_quotes() {
    assert_eq!(
        Quoted::new("plain".to_string()),
        Quoted::SingleLine(Quotes::Single("plain".to_string()))
    );
    assert_eq!(
        Quoted::new("a \"b\" \\ c\t".to_string()),
        Quoted::SingleLine(Quotes::Single("a \"b\" \\ c\t".to_string()))
    );
    assert_eq!(Quoted::new(String::new()), Quoted::SingleLine(Quotes::Single(String::new())));
}

#[test]
fn quoted_chooses_double_quotes() {
    assert_eq!(
        Quoted::new("it's".to_string()),
        Quoted::SingleLine(Quotes::Double("it's".to_string()))
    );
    assert_eq!(
        Quoted::new("a\u{1}".to_string()),
        Quoted::SingleLine(Quotes::Double("a\u{1}".to_string()))
    );
}

#[test]
fn quoted_chooses_several_lines() {
    assert_eq!(
        Quoted::new("a\nb".to_string()),
        Quoted::MultiLine(Quotes::Single("a\nb".to_string()))
    );
    assert_eq!(
        Quoted::new("a\rb".to_string()),
        Quoted::MultiLine(Quotes::Single("a\rb".to_string()))
    );
    assert_eq!(
        Quoted::new("it's\nb".to_string()),
        Quoted::MultiLine(Quotes::Double("it's\nb".to_string()))
    );
    assert_eq!(
        Quoted::new("\u{7f}\r".to_string()),
        Quoted::MultiLine(Quotes::Double("\u{7f}\r".to_string()))
    );
}

#[test]
fn quoted_literals() {
    assert_eq!(Quoted::SingleLine(Quotes::Single("a\"b".to_string())).to_string(), "'a\"b'");
    assert_eq!(Quoted::MultiLine(Quotes::Single("a\nb".to_string())).to_string(), "'''a\nb'''");
    assert_eq!(
        Quoted::SingleLine(Quotes::Double("a\"b\n'".to_string())).to_string(),
        "\"a\\\"b\\n'\""
    );
    assert_eq!(
        Quoted::MultiLine(Quotes::Double("a\"b\n'\\".to_string())).to_string(),
        "\"\"\"a\"b\n'\\\\\"\"\""
    );
    assert_eq!(Quoted::new("it's".to_string()).to_string(), "\"it's\"");
    assert_eq!(Quoted::new("a\nb".to_string()).to_string(), "'''a\nb'''");
    assert_eq!(Quoted::new(String::new()).to_string(), "''");
}

#[test]
fn quotes_literals() {
    assert_eq!(Quotes::Single("a".to_string()).to_string(), "'a'");
    assert_eq!(Quotes::Double("a\nb".to_string()).to_string(), "\"a\nb\"");
}

#[test]
fn quoted_parts() {
    let quoted = Quoted::MultiLine(Quotes::Double(7));
    assert_eq!(*quoted.inner(), 7);
    assert_eq!(quoted.mode(), Mode::MultiLine);
    assert_eq!(*quoted.quotes(), Quotes::Double(7));
    assert_eq!(quoted.into_inner(), 7);
    assert_eq!(Quoted::SingleLine(Quotes::Single(1)).mode(), Mode::SingleLine);
    assert_eq!(*Quotes::Single(3).inner(), 3);
    assert_eq!(Quotes::Double(4).into_inner(), 4);
}

#[test]
fn quoted_map_keeps_the_quoting() {
    assert_eq!(
        Quoted::SingleLine(Quotes::Double(2)).map(|n| n * 10),
        Quoted::SingleLine(Quotes::Double(20))
    );
    assert_eq!(
        Quoted::MultiLine(Quotes::Single("a")).map(|s| s.len()),
        Quoted::MultiLine(Quotes::Single(1))
    );
    assert_eq!(Quotes::Single(2).map(|n| n + 1), Quotes::Single(3));
    assert_eq!(Quotes::Double("x").map(|s| s.to_string()), Quotes::Double("x".to_string()));
}

fn sample() -> Comments {
    let mut comments = Comments::new();
    comments.push(Kind::Pre(" first".to_string()));
    comments.push(Kind::Post(" behind".to_string()));
    comments.push(Kind::Pre(" second".to_string()));
    comments.push(Kind::Post(" last".to_string()));
    comments
}

#[test]
fn comment_kinds() {
    let pre: Comment = Kind::Pre("a".to_string());
    let post: Comment = Kind::Post("a".to_string());
    assert!(pre.is_pre() && !pre.is_post());
    assert!(post.is_post() && !post.is_pre());
    assert_eq!(pre.to_string(), "#a");
    assert_eq!(post.to_string(), "#a");
}

#[test]
fn comments_by_kind() {
    let comments = sample();
    assert_eq!(comments.len(), 4);
    assert!(!comments.is_empty());
    assert_eq!(comments.pre(), Kind::Pre(vec![" first", " second"]));
    assert_eq!(comments.post(), Kind::Post(vec![" behind", " last"]));
    assert_eq!(Comments::new().pre(), Kind::Pre(vec![]));
    assert_eq!(Comments::new().post(), Kind::Post(vec![]));
    assert_eq!(Comments::default(), Comments::new());
}

#[test]
fn comments_as_text() {
    let comments = sample();
    assert_eq!(comments.pre().to_string(), "# first\n# second\n");
    assert_eq!(comments.post().to_string(), " # behind  last");
    assert_eq!(Comments::new().pre().to_string(), "");
    assert_eq!(Comments::new().post().to_string(), "");
    assert_eq!(Kind::Post(vec!["x"]).to_string(), " #x");
}

#[test]
fn comments_grow() {
    let mut comments = Comments::new();
    assert!(comments.is_empty());
    comments.maybe_push(None);
    assert!(comments.is_empty());
    comments.maybe_push(Some(Kind::Pre("a".to_string())));
    assert_eq!(comments.len(), 1);
    let mut more = sample();
    comments.append(&mut more);
    assert!(more.is_empty());
    assert_eq!(comments.len(), 5);
    assert_eq!(comments.pre(), Kind::Pre(vec!["a", " first", " second"]));
}
