use toml_tree::escape::error::Error;
use toml_tree::escape::escape::escape;
use toml_tree::escape::unescape::{unescape, Unescape};
use toml_tree::escape::{Mode, Span};

#[test]
fn unescape_ht() {
    assert_eq!(unescape("a\tb", Mode::SingleLine).unwrap(), "a\tb");
    assert_eq!(unescape("a\tb", Mode::MultiLine).unwrap(), "a\tb");
}

#[test]
fn unescape_lf() {
    assert_eq!(
        unescape("a\nb", Mode::SingleLine),
        Err(Error::EscapeOnlyChar(Span { start: 1, end: 2 })),
    );
    assert_eq!(unescape("a\nb", Mode::MultiLine).unwrap(), "a\nb");
}

#[test]
fn unescape_cr() {
    assert_eq!(
        unescape("a\rb", Mode::SingleLine),
        Err(Error::EscapeOnlyChar(Span { start: 1, end: 2 })),
    );
    assert_eq!(unescape("a\rb", Mode::MultiLine).unwrap(), "a\rb");
}

#[test]
fn unescape_cr_lf() {
    assert_eq!(
        unescape("a\r\nb", Mode::SingleLine),
        Err(Error::EscapeOnlyChar(Span { start: 1, end: 2 })),
    );
    assert_eq!(unescape("a\r\nb", Mode::MultiLine).unwrap(), "a\r\nb");
}

#[test]
fn unescape_quotation_mark() {
    assert_eq!(
        unescape(r#"a"b"#, Mode::SingleLine),
        Err(Error::EscapeOnlyChar(Span { start: 1, end: 2 })),
    );
    assert_eq!(unescape(r#"a"b"#, Mode::MultiLine).unwrap(), "a\"b");
}

#[test]
fn unescape_backslash() {
    assert_eq!(
        unescape(r#"a\b"#, Mode::SingleLine),
        Err(Error::InvalidEscape(Span { start: 1, end: 3 })),
    );
    assert_eq!(unescape(r#"a\\b"#, Mode::MultiLine).unwrap(), r#"a\b"#);
}

#[test]
fn backslash_lf() {
    assert_eq!(
        unescape("a\\\n    \t\n    b", Mode::SingleLine),
        Err(Error::InvalidEscape(Span { start: 1, end: 3 })),
    );
    assert_eq!(unescape("a\\\n    \t\n    b", Mode::MultiLine).unwrap(), "ab");
}

#[test]
fn backslash_n() {
    assert_eq!(unescape(r#"a\nb"#, Mode::SingleLine).unwrap(), "a\nb");
    assert_eq!(unescape(r#"a\nb"#, Mode::MultiLine).unwrap(), "a\nb");
}

#[test]
fn backslash_r() {
    assert_eq!(unescape(r#"a\rb"#, Mode::SingleLine).unwrap(), "a\rb");
    assert_eq!(unescape(r#"a\rb"#, Mode::MultiLine).unwrap(), "a\rb");
}

#[test]
fn surrogate_unicode() {
    assert_eq!(
        unescape(r#"a\ud800b"#, Mode::SingleLine),
        Err(Error::SurrogateUnicodeEscape(Span { start: 1, end: 7 })),
    );
    assert_eq!(
        unescape(r#"a\ud800b"#, Mode::MultiLine),
        Err(Error::SurrogateUnicodeEscape(Span { start: 1, end: 7 })),
    );
}

#[test]
fn out_of_range_unicode() {
    assert_eq!(
        unescape(r#"a\U00110000b"#, Mode::SingleLine),
        Err(Error::OutOfRangeUnicodeEscape(Span { start: 1, end: 11 })),
    );
    assert_eq!(
        unescape(r#"a\U00110000b"#, Mode::MultiLine),
        Err(Error::OutOfRangeUnicodeEscape(Span { start: 1, end: 11 })),
    );
}

#[test]
fn unescape_empty() {
    assert_eq!(unescape("", Mode::SingleLine).unwrap(), "");
    assert_eq!(unescape("", Mode::MultiLine).unwrap(), "");
}

#[test]
fn unescape_simple_escapes() {
    assert_eq!(unescape(r#"\t\n\r\"\\"#, Mode::SingleLine).unwrap(), "\t\n\r\"\\");
    assert_eq!(unescape(r#"\t\n\r\"\\"#, Mode::MultiLine).unwrap(), "\t\n\r\"\\");
}

#[test]
fn unescape_unicode_escapes() {
    assert_eq!(unescape(r#"\u0041"#, Mode::SingleLine).unwrap(), "A");
    assert_eq!(unescape(r#"\u00e9\u00E9"#, Mode::SingleLine).unwrap(), "\u{e9}\u{e9}");
    assert_eq!(unescape(r#"\U0001F600"#, Mode::MultiLine).unwrap(), "\u{1F600}");
    assert_eq!(unescape(r#"\U0010ffff"#, Mode::MultiLine).unwrap(), "\u{10ffff}");
    assert_eq!(unescape(r#"\ud7ff\ue000"#, Mode::MultiLine).unwrap(), "\u{d7ff}\u{e000}");
    assert_eq!(unescape(r#"\u00410"#, Mode::SingleLine).unwrap(), "A0");
}

#[test]
fn unescape_lone_slash() {
    assert_eq!(
        unescape("ab\\", Mode::SingleLine),
        Err(Error::LoneSlash(Span { start: 2, end: 3 })),
    );
    assert_eq!(
        unescape("\\", Mode::MultiLine),
        Err(Error::LoneSlash(Span { start: 0, end: 1 })),
    );
}

#[test]
fn unescape_incomplete_unicode() {
    assert_eq!(
        unescape(r#"a\u12"#, Mode::SingleLine),
        Err(Error::IncompleteUnicodeEscape(Span { start: 1, end: 5 })),
    );
    assert_eq!(
        unescape(r#"\u"#, Mode::SingleLine),
        Err(Error::IncompleteUnicodeEscape(Span { start: 0, end: 2 })),
    );
    assert_eq!(
        unescape(r#"\U0001F60"#, Mode::MultiLine),
        Err(Error::IncompleteUnicodeEscape(Span { start: 0, end: 9 })),
    );
}

#[test]
fn unescape_invalid_char_in_unicode() {
    assert_eq!(
        unescape(r#"a\u12g4"#, Mode::SingleLine),
        Err(Error::InvalidCharInUnicodeEscape(Span { start: 1, end: 6 })),
    );
    assert_eq!(
        unescape(r#"\U0000000z"#, Mode::MultiLine),
        Err(Error::InvalidCharInUnicodeEscape(Span { start: 0, end: 10 })),
    );
}

#[test]
fn unescape_invalid_escape() {
    assert_eq!(
        unescape(r#"\x41"#, Mode::SingleLine),
        Err(Error::InvalidEscape(Span { start: 0, end: 2 })),
    );
    assert_eq!(
        unescape(r#"\'"#, Mode::MultiLine),
        Err(Error::InvalidEscape(Span { start: 0, end: 2 })),
    );
}

#[test]
fn unescape_control_characters() {
    assert_eq!(
        unescape("ab\u{0}", Mode::MultiLine),
        Err(Error::EscapeOnlyChar(Span { start: 2, end: 3 })),
    );
    assert_eq!(
        unescape("\u{7f}", Mode::SingleLine),
        Err(Error::EscapeOnlyChar(Span { start: 0, end: 1 })),
    );
    assert_eq!(
        unescape("\u{c}", Mode::MultiLine),
        Err(Error::EscapeOnlyChar(Span { start: 0, end: 1 })),
    );
    assert_eq!(unescape("\u{80}", Mode::SingleLine).unwrap(), "\u{80}");
}

#[test]
fn unescape_surrogate_bounds() {
    assert_eq!(
        unescape(r#"\udfff"#, Mode::SingleLine),
        Err(Error::SurrogateUnicodeEscape(Span { start: 0, end: 6 })),
    );
    assert_eq!(
        unescape(r#"\U0000d800"#, Mode::SingleLine),
        Err(Error::SurrogateUnicodeEscape(Span { start: 0, end: 10 })),
    );
    assert_eq!(
        unescape(r#"\UFFFFFFFF"#, Mode::SingleLine),
        Err(Error::OutOfRangeUnicodeEscape(Span { start: 0, end: 10 })),
    );
}

#[test]
fn unescape_line_continuation() {
    assert_eq!(unescape("a\\\nb", Mode::MultiLine).unwrap(), "ab");
    assert_eq!(unescape("a\\\n", Mode::MultiLine).unwrap(), "a");
    assert_eq!(unescape("a\\\n \r\n\t\u{c} b\\\n\\\nc", Mode::MultiLine).unwrap(), "abc");
    assert_eq!(
        unescape("a\\ \nb", Mode::MultiLine),
        Err(Error::InvalidEscape(Span { start: 1, end: 3 })),
    );
    assert_eq!(
        unescape("a\\\r\nb", Mode::MultiLine),
        Err(Error::InvalidEscape(Span { start: 1, end: 3 })),
    );
}

#[test]
fn unescape_spans_count_bytes() {
    let mut reader = Unescape::new("é\\n日\\u0041\u{1F600}x", Mode::SingleLine);
    assert_eq!(reader.next(), Some(Ok((Span { start: 0, end: 2 }, 'é'))));
    assert_eq!(reader.next(), Some(Ok((Span { start: 2, end: 4 }, '\n'))));
    assert_eq!(reader.next(), Some(Ok((Span { start: 4, end: 7 }, '日'))));
    assert_eq!(reader.next(), Some(Ok((Span { start: 7, end: 13 }, 'A'))));
    assert_eq!(reader.next(), Some(Ok((Span { start: 13, end: 17 }, '\u{1F600}'))));
    assert_eq!(reader.next(), Some(Ok((Span { start: 17, end: 18 }, 'x'))));
    assert_eq!(reader.next(), None);
    assert_eq!(reader.next(), None);
}

#[test]
fn unescape_spans_after_continuation() {
    let mut reader = Unescape::new("a\\\n  b\\q", Mode::MultiLine);
    assert_eq!(reader.next(), Some(Ok((Span { start: 0, end: 1 }, 'a'))));
    assert_eq!(reader.next(), Some(Ok((Span { start: 5, end: 6 }, 'b'))));
    assert_eq!(reader.next(), Some(Err(Error::InvalidEscape(Span { start: 6, end: 8 }))));
    assert_eq!(reader.next(), None);
}

#[test]
fn unescape_goes_on_after_an_error() {
    let mut reader = Unescape::new("a\"b", Mode::SingleLine);
    assert_eq!(reader.next(), Some(Ok((Span { start: 0, end: 1 }, 'a'))));
    assert_eq!(reader.next(), Some(Err(Error::EscapeOnlyChar(Span { start: 1, end: 2 }))));
    assert_eq!(reader.next(), Some(Ok((Span { start: 2, end: 3 }, 'b'))));
    assert_eq!(reader.next(), None);
}

#[test]
fn round_trip() {
    let samples = [
        "",
        "plain",
        "a\tb",
        "a\nb",
        "a\rb",
        "a\r\nb",
        "a\"b",
        "a\"\"\"b",
        "a\\b",
        "a\\\nb",
        "\\\n   x",
        "\\u0041",
        "\\",
        "'",
        "\u{0}\u{1}\u{8}\u{b}\u{c}\u{e}\u{1f}\u{7f}",
        "\u{1}0123",
        "é ü 日本 \u{80} \u{9f} \u{1F600}",
        "\u{d7ff}\u{e000}\u{10ffff}",
    ];
    for sample in samples {
        for mode in [Mode::SingleLine, Mode::MultiLine] {
            let escaped = escape(sample, mode);
            assert_eq!(unescape(&escaped, mode).unwrap(), sample);
        }
    }
}

#[test]
fn round_trip_of_every_ascii_character() {
    for code in 0u32..0x100 {
        let c = char::from_u32(code).unwrap();
        let text = format!("<{}>{}", c, c);
        for mode in [Mode::SingleLine, Mode::MultiLine] {
            assert_eq!(unescape(&escape(&text, mode), mode).unwrap(), text);
        }
    }
}

#[test]
fn escape_is_not_undone_by_unescape_the_other_way() {
    assert_eq!(escape(&unescape("\\u0041", Mode::SingleLine).unwrap(), Mode::SingleLine), "A");
    assert_eq!(escape(&unescape("a\\\n  b", Mode::MultiLine).unwrap(), Mode::MultiLine), "ab");
}

#[test]
fn error_spans_and_messages() {
    let span = Span { start: 3, end: 9 };
    assert_eq!(Error::EscapeOnlyChar(span).span(), span);
    assert_eq!(Error::LoneSlash(span).span(), span);
    assert_eq!(Error::EscapeOnlyChar(span).message(), "escape only char");
    assert_eq!(Error::IncompleteUnicodeEscape(span).message(), "incomplete unicode escape");
    assert_eq!(
        Error::InvalidCharInUnicodeEscape(span).message(),
        "invalid char in unicode escape"
    );
    assert_eq!(Error::InvalidEscape(span).message(), "invalid escape");
    assert_eq!(Error::LoneSlash(span).message(), "lone slash");
    assert_eq!(Error::SurrogateUnicodeEscape(span).message(), "surrogate unicode escape");
    assert_eq!(Error::OutOfRangeUnicodeEscape(span).message(), "out of range unicode escape");
    assert_eq!(Span::new(), Span { start: 0, end: 0 });
}
