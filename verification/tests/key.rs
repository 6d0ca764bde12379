use std::hash::{Hash, Hasher};
use toml_tree::escape::Flags;
use toml_tree::key::{Key, Segment};
use toml_tree::quotes::{Quoted, Quotes};

fn single(text: &str) -> Segment {
    Segment::Quoted(Quoted::SingleLine(Quotes::Single(text.to_string())))
}

fn double(text: &str) -> Segment {
    Segment::Quoted(Quoted::SingleLine(Quotes::Double(text.to_string())))
}

fn is_single(segment: &Segment) -> bool {
    matches!(segment, Segment::Quoted(Quoted::SingleLine(Quotes::Single(_))))
}

fn is_double(segment: &Segment) -> bool {
    matches!(segment, Segment::Quoted(Quoted::SingleLine(Quotes::Double(_))))
}

#[test]
fn key_ht() {
    let segment = Segment::new("a\tb");
    assert_eq!(segment, single("a\tb"));
    assert!(is_single(&segment));
    assert_eq!(segment.to_string(), "'a\tb'");
}

#[test]
fn key_lf() {
    let segment = Segment::new("a\nb");
    assert_eq!(segment, double("a\nb"));
    assert!(is_double(&segment));
    assert_eq!(segment.to_string(), r#""a\nb""#);
}

#[test]
fn key_cr() {
    let segment = Segment::new("a\rb");
    assert_eq!(segment, double("a\rb"));
    assert!(is_double(&segment));
    assert_eq!(segment.to_string(), r#""a\rb""#);
}

#[test]
fn key_cr_lf() {
    let segment = Segment::new("a\r\nb");
    assert_eq!(segment, double("a\r\nb"));
    assert!(is_double(&segment));
    assert_eq!(segment.to_string(), r#""a\r\nb""#);
}

#[test]
fn key_quotation_mark() {
    let segment = Segment::new(r#"a"b"#);
    assert_eq!(segment, single(r#"a"b"#));
    assert!(is_single(&segment));
    assert_eq!(segment.to_string(), r#"'a"b'"#);
}

#[test]
fn key_tree_quotation_marks() {
    let segment = Segment::new(r#"a"""b"#);
    assert_eq!(segment, single(r#"a"""b"#));
    assert!(is_single(&segment));
    assert_eq!(segment.to_string(), r#"'a"""b'"#);
}

#[test]
fn apostrophe() {
    let segment = Segment::new("a'b");
    assert_eq!(segment, double("a'b"));
    assert!(is_double(&segment));
    assert_eq!(segment.to_string(), r#""a'b""#);
}

#[test]
fn key_backslash() {
    let segment = Segment::new(r#"a\b"#);
    assert_eq!(segment, single(r#"a\b"#));
    assert!(is_single(&segment));
    assert_eq!(segment.to_string(), r#"'a\b'"#);
}

#[test]
fn key_test() {
    assert_eq!(Segment::new("abc"), Segment::Unquoted("abc".to_string()));
    assert!(matches!(Segment::new("abc"), Segment::Unquoted(_)));
    assert_eq!(
        &Key::from_segments(vec![
            Segment::Unquoted("a".to_string()),
            Segment::Quoted(Quoted::SingleLine(Quotes::Single("b".to_string()))),
            Segment::Quoted(Quoted::SingleLine(Quotes::Double("c".to_string()))),
            Segment::Quoted(Quoted::MultiLine(Quotes::Single("d".to_string()))),
            Segment::Quoted(Quoted::MultiLine(Quotes::Double("e".to_string()))),
        ])
        .to_string(),
        r#"a.'b'."c".'''d'''."""e""""#
    );
}

#[test]
fn segment_bare_characters() {
    for text in ["abc", "ABC", "a-b_c", "0", "-", "_", "Az09"] {
        let segment = Segment::new(text);
        assert!(matches!(segment, Segment::Unquoted(_)));
        assert_eq!(segment.to_string(), text);
        assert_eq!(segment.escape(), text);
        assert_eq!(segment.text(), text);
        assert_eq!(segment.into_inner(), text);
    }
}

#[test]
fn segment_empty_text_is_bare() {
    let segment = Segment::new("");
    assert!(matches!(segment, Segment::Unquoted(_)));
    assert_eq!(segment.to_string(), "");
}

#[test]
fn segment_quoted_characters() {
    assert_eq!(Segment::new("a.b").to_string(), "'a.b'");
    assert_eq!(Segment::new("a b").to_string(), "'a b'");
    assert_eq!(Segment::new("cfg(unix)").to_string(), "'cfg(unix)'");
    assert_eq!(Segment::new("\u{e9}").to_string(), "'\u{e9}'");
    assert_eq!(Segment::new("a\u{1}b").to_string(), "\"a\\u0001b\"");
    assert_eq!(Segment::new("a'\"b").to_string(), "\"a'\\\"b\"");
    assert_eq!(Segment::new("a'\\b").to_string(), "\"a'\\\\b\"");
}

#[test]
fn segment_escape_is_the_body() {
    assert_eq!(Segment::new("a\nb").escape(), "a\\nb");
    assert_eq!(Segment::new("a\"b").escape(), "a\"b");
    assert_eq!(Segment::new("a'\"b").escape(), "a'\\\"b");
    assert_eq!(
        Segment::Quoted(Quoted::MultiLine(Quotes::Double("a\n\"b".to_string()))).escape(),
        "a\n\"b"
    );
    assert_eq!(
        Segment::Quoted(Quoted::MultiLine(Quotes::Single("a\nb".to_string()))).escape(),
        "a\nb"
    );
}

#[test]
fn segment_equality_is_by_text() {
    assert_eq!(Segment::Unquoted("a".to_string()), single("a"));
    assert_eq!(single("a"), double("a"));
    assert_eq!(
        double("a"),
        Segment::Quoted(Quoted::MultiLine(Quotes::Double("a".to_string())))
    );
    assert_ne!(single("a"), single("b"));
    assert_ne!(Segment::Unquoted("a".to_string()), Segment::Unquoted("ab".to_string()));
}

#[test]
fn key_of_texts() {
    let key = Key::from_texts(&vec!["a", "b.c", "d'e", "f"]);
    assert_eq!(key.to_string(), r#"a.'b.c'."d'e".f"#);
    assert_eq!(key.len(), 4);
    assert!(!key.is_empty());
}

#[test]
fn key_push_and_pop() {
    let mut key = Key::new();
    assert!(key.is_empty());
    assert_eq!(key.to_string(), "");
    key.push(Segment::new("a"));
    key.push(Segment::new("b c"));
    assert_eq!(key.to_string(), "a.'b c'");
    assert_eq!(key.pop(), Some(Segment::new("b c")));
    assert_eq!(key.to_string(), "a");
    assert_eq!(Key::from_segment(Segment::new("x")).to_string(), "x");
    assert_eq!(key.pop(), Some(Segment::new("a")));
    assert_eq!(key.pop(), None);
}

#[test]
fn flags_of_texts() {
    let flags = Flags::parse("abc-DEF_012");
    assert!(!flags.is_quoted && !flags.has_lf_or_cr && !flags.has_escape && !flags.has_apostrophe);
    let flags = Flags::parse("");
    assert!(!flags.is_quoted && !flags.has_lf_or_cr && !flags.has_escape && !flags.has_apostrophe);
    let flags = Flags::parse("a b");
    assert!(flags.is_quoted && !flags.has_lf_or_cr && !flags.has_escape && !flags.has_apostrophe);
    let flags = Flags::parse("a\tb");
    assert!(flags.is_quoted && !flags.has_lf_or_cr && !flags.has_escape && !flags.has_apostrophe);
    let flags = Flags::parse("a\nb");
    assert!(flags.is_quoted && flags.has_lf_or_cr && !flags.has_escape && !flags.has_apostrophe);
    let flags = Flags::parse("\r");
    assert!(flags.is_quoted && flags.has_lf_or_cr && !flags.has_escape && !flags.has_apostrophe);
    let flags = Flags::parse("a\u{7f}");
    assert!(flags.is_quoted && !flags.has_lf_or_cr && flags.has_escape && !flags.has_apostrophe);
    let flags = Flags::parse("\u{0}");
    assert!(flags.is_quoted && !flags.has_lf_or_cr && flags.has_escape && !flags.has_apostrophe);
    let flags = Flags::parse("'");
    assert!(flags.is_quoted && !flags.has_lf_or_cr && !flags.has_escape && flags.has_apostrophe);
    let flags = Flags::parse("\u{e9}\u{80}");
    assert!(flags.is_quoted && !flags.has_lf_or_cr && !flags.has_escape && !flags.has_apostrophe);
    let flags = Flags::parse(" \n\u{1}' and more \u{2}\r''");
    assert!(flags.is_quoted && flags.has_lf_or_cr && flags.has_escape && flags.has_apostrophe);
    assert_eq!(Flags::default(), Flags::parse("x"));
}

#[test]
fn flags_do_not_depend_on_the_order() {
    let texts = [
        ["ab\u{1}cd", "\u{1}abcd", "abcd\u{1}"],
        ["a'b\nc", "\n'abc", "cba'\n"],
        ["x y\u{7f}'\r", "'\r\u{7f} xy", "\u{7f}yx \r'"],
    ];
    for group in texts {
        let first = Flags::parse(group[0]);
        for text in group {
            assert_eq!(Flags::parse(text), first);
        }
    }
}

fn hash_of(segment: &Segment) -> u64 {
    let mut hasher = std::collections::hash_map::DefaultHasher::new();
    segment.hash(&mut hasher);
    hasher.finish()
}

#[test]
fn segments_hash_and_order_by_text() {
    assert_eq!(hash_of(&Segment::Unquoted("a".to_string())), hash_of(&double("a")));
    assert_eq!(hash_of(&single("a b")), hash_of(&double("a b")));
    assert_ne!(hash_of(&single("a")), hash_of(&single("b")));
    assert!(single("a") < Segment::Unquoted("b".to_string()));
    assert!(double("b") > Segment::Unquoted("a".to_string()));
    assert!(single("a") < single("ab"));
    assert_eq!(single("a").partial_cmp(&double("a")), Some(std::cmp::Ordering::Equal));
    assert_eq!(
        Segment::new("\u{e9}").partial_cmp(&Segment::new("z")),
        "\u{e9}".partial_cmp("z")
    );
    let a = Key::from_segments(vec![single("a"), Segment::new("b")]);
    let b = Key::from_segments(vec![Segment::new("a"), double("b")]);
    assert_eq!(a, b);
}
