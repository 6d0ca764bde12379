use super::error::Error;
use super::{ascii_control, is_ascii_control, Mode, Span};
use crate::text::chars_of;
use vstd::prelude::*;
use vstd::utf8::encode_utf8;

verus! {

/// How many bytes the UTF-8 form of `c` takes.
pub open spec fn utf8_len(c: char) -> nat {
    if (c as u32) < 0x80 {
        1
    } else if (c as u32) < 0x800 {
        2
    } else if (c as u32) < 0x10000 {
        3
    } else {
        4
    }
}

/// How many bytes the UTF-8 form of `text` takes.
pub open spec fn byte_len(text: Seq<char>) -> nat
    decreases text.len(),
{
    if text.len() == 0 {
        0
    } else {
        utf8_len(text[0]) + byte_len(text.drop_first())
    }
}

/// The byte at which the character of index `index` starts in the UTF-8 form
/// of `text`.
pub open spec fn byte_offset(text: Seq<char>, index: int) -> nat {
    byte_len(text.take(index))
}

/// The bytes that the characters from `from` up to `to` take in `text`.
pub open spec fn span_at(text: Seq<char>, from: int, to: int) -> Span {
    Span { start: byte_offset(text, from) as usize, end: byte_offset(text, to) as usize }
}

/// The value of `c` as a hexadecimal digit, of either case.
pub open spec fn hex_value(c: char) -> Option<u32> {
    if '0' <= c <= '9' {
        Some((c as u32 - 48) as u32)
    } else if 'a' <= c <= 'f' {
        Some((c as u32 - 87) as u32)
    } else if 'A' <= c <= 'F' {
        Some((c as u32 - 55) as u32)
    } else {
        None
    }
}

/// Is `c` ASCII whitespace: a space, a tab, a line feed, a form feed or a
/// carriage return?
pub open spec fn is_ascii_whitespace(c: char) -> bool {
    c == ' ' || c == '\t' || c == '\n' || c == '\x0c' || c == '\r'
}

/// The index of the first character at or after `index` that is no ASCII
/// whitespace, or the length of `text` where there is none.
pub open spec fn skip_whitespace(text: Seq<char>, index: int) -> int
    decreases text.len() - index,
{
    if 0 <= index < text.len() && is_ascii_whitespace(text[index]) {
        skip_whitespace(text, index + 1)
    } else {
        index
    }
}

/// How many hexadecimal digits stand in a row from `start` on, counting no
/// more than `max`.
pub open spec fn digit_run(text: Seq<char>, start: int, max: nat) -> nat
    decreases max,
{
    if max == 0 || start < 0 || start >= text.len() || hex_value(text[start]) is None {
        0
    } else {
        1 + digit_run(text, start + 1, (max - 1) as nat)
    }
}

/// The number that the `count` hexadecimal digits from `start` on spell.
pub open spec fn digits_value(text: Seq<char>, start: int, count: nat) -> int
    decreases count,
{
    if count == 0 {
        0
    } else {
        digits_value(text, start, (count - 1) as nat) * 16 + hex_value(
            text[start + count - 1],
        )->0
    }
}

/// What one call of [`Unescape::next`] hands out, and where the next call
/// goes on.
pub struct Step {
    /// The item handed out; `None` at the end of the input.
    pub item: Option<Result<(Span, char), Error>>,
    /// The index of the first character that was not read.
    pub next: int,
}

/// Reads the digits of a unicode escape whose backslash is at `slash`.
pub open spec fn unicode_step(text: Seq<char>, slash: int, width: nat) -> Step {
    let first = slash + 2;
    let run = digit_run(text, first, width);
    if run < width {
        if first + run >= text.len() {
            Step {
                item: Some(Err(Error::IncompleteUnicodeEscape(span_at(text, slash, first + run)))),
                next: first + run,
            }
        } else {
            Step {
                item: Some(
                    Err(Error::InvalidCharInUnicodeEscape(span_at(text, slash, first + run + 1))),
                ),
                next: first + run + 1,
            }
        }
    } else {
        let value = digits_value(text, first, width);
        let span = span_at(text, slash, first + width);
        Step {
            item: Some(
                if value > 0x10ffff {
                    Err(Error::OutOfRangeUnicodeEscape(span))
                } else if 0xd800 <= value <= 0xdfff {
                    Err(Error::SurrogateUnicodeEscape(span))
                } else {
                    Ok((span, value as char))
                },
            ),
            next: first + width,
        }
    }
}

/// Reads the escape whose backslash is at `slash`.
pub open spec fn escape_step(text: Seq<char>, slash: int) -> Step {
    if slash + 1 >= text.len() {
        Step { item: Some(Err(Error::LoneSlash(span_at(text, slash, slash + 1)))), next: slash + 1 }
    } else {
        let c = text[slash + 1];
        let span = span_at(text, slash, slash + 2);
        let next = slash + 2;
        if c == 't' {
            Step { item: Some(Ok((span, '\t'))), next }
        } else if c == 'n' {
            Step { item: Some(Ok((span, '\n'))), next }
        } else if c == 'r' {
            Step { item: Some(Ok((span, '\r'))), next }
        } else if c == '"' {
            Step { item: Some(Ok((span, '"'))), next }
        } else if c == '\\' {
            Step { item: Some(Ok((span, '\\'))), next }
        } else if c == 'u' {
            unicode_step(text, slash, 4)
        } else if c == 'U' {
            unicode_step(text, slash, 8)
        } else {
            Step { item: Some(Err(Error::InvalidEscape(span))), next }
        }
    }
}

/// Does a line continuation start at `index`: in multi-line mode, a backslash
/// with a line feed right behind it?
pub open spec fn is_continuation(text: Seq<char>, index: int, mode: Mode) -> bool {
    &&& mode == Mode::MultiLine
    &&& 0 <= index
    &&& index + 1 < text.len()
    &&& text[index] == '\\'
    &&& text[index + 1] == '\n'
}

/// Reads the body of a literal from `index` on, up to the first character or
/// error that it yields. A line continuation yields nothing: the backslash,
/// the line feed and the whitespace behind them are passed over.
pub open spec fn step(text: Seq<char>, index: int, mode: Mode) -> Step
    decreases text.len() - index,
{
    if index < 0 || index >= text.len() {
        Step { item: None, next: index }
    } else {
        let c = text[index];
        let span = span_at(text, index, index + 1);
        let next = index + 1;
        if c == '\t' {
            Step { item: Some(Ok((span, c))), next }
        } else if (c == '\n' || c == '\r') && mode == Mode::MultiLine {
            Step { item: Some(Ok((span, c))), next }
        } else if is_ascii_control(c) {
            Step { item: Some(Err(Error::EscapeOnlyChar(span))), next }
        } else if c == '"' && mode == Mode::SingleLine {
            Step { item: Some(Err(Error::EscapeOnlyChar(span))), next }
        } else if c == '\\' {
            if is_continuation(text, index, mode) {
                let resume = skip_whitespace(text, index + 1);
                if index < resume <= text.len() {
                    step(text, resume, mode)
                } else {
                    Step { item: None, next: index }
                }
            } else {
                escape_step(text, index)
            }
        } else {
            Step { item: Some(Ok((span, c))), next }
        }
    }
}

/// The text that the body `text` of a literal stands for, read from `index`
/// on: the characters it yields up to its end, or the first error.
pub open spec fn unescape_from(text: Seq<char>, index: int, mode: Mode) -> Result<Seq<char>, Error>
    decreases text.len() - index,
{
    let s = step(text, index, mode);
    match s.item {
        None => Ok(Seq::empty()),
        Some(Err(e)) => Err(e),
        Some(Ok((_, c))) => if index < s.next <= text.len() {
            match unescape_from(text, s.next, mode) {
                Ok(rest) => Ok(seq![c] + rest),
                Err(e) => Err(e),
            }
        } else {
            Ok(seq![c])
        },
    }
}

/// The text that the body `text` of a literal stands for, or the first error
/// in it.
pub open spec fn unescape_text(text: Seq<char>, mode: Mode) -> Result<Seq<char>, Error> {
    unescape_from(text, 0, mode)
}

/// Skipping whitespace goes forward, and not past the end.
pub proof fn lemma_skip_whitespace_bounds(text: Seq<char>, index: int)
    requires
        0 <= index <= text.len(),
    ensures
        index <= skip_whitespace(text, index) <= text.len(),
        0 <= index < text.len() && is_ascii_whitespace(text[index]) ==> index < skip_whitespace(
            text,
            index,
        ),
    decreases text.len() - index,
{
    if index < text.len() && is_ascii_whitespace(text[index]) {
        lemma_skip_whitespace_bounds(text, index + 1);
    }
}

/// A run of digits is no longer than asked for, and stays inside the text.
pub proof fn lemma_digit_run_bounds(text: Seq<char>, start: int, max: nat)
    requires
        0 <= start,
    ensures
        digit_run(text, start, max) <= max,
        digit_run(text, start, max) > 0 ==> start + digit_run(text, start, max) <= text.len(),
        forall|k: int|
            start <= k < start + digit_run(text, start, max) ==> hex_value(#[trigger] text[k])
                is Some,
    decreases max,
{
    if max == 0 || start >= text.len() || hex_value(text[start]) is None {
    } else {
        lemma_digit_run_bounds(text, start + 1, (max - 1) as nat);
    }
}

/// Every step that yields an item goes forward and stays inside the text.
pub proof fn lemma_step_progress(text: Seq<char>, index: int, mode: Mode)
    requires
        0 <= index <= text.len(),
    ensures
        step(text, index, mode).item is Some ==> index < step(text, index, mode).next
            <= text.len(),
        step(text, index, mode).item is None ==> index <= step(text, index, mode).next
            <= text.len(),
    decreases text.len() - index,
{
    if index < text.len() {
        let c = text[index];
        if c == '\\' && !(c == '\t') && !((c == '\n' || c == '\r') && mode == Mode::MultiLine)
            && !is_ascii_control(c) {
            if is_continuation(text, index, mode) {
                lemma_skip_whitespace_bounds(text, index + 1);
                let resume = skip_whitespace(text, index + 1);
                lemma_step_progress(text, resume, mode);
            } else if index + 1 < text.len() {
                lemma_digit_run_bounds(text, index + 2, 4);
                lemma_digit_run_bounds(text, index + 2, 8);
            }
        }
    }
}

/// The byte length of a text grows by the length of what is appended.
pub proof fn lemma_byte_len_push(text: Seq<char>, c: char)
    ensures
        byte_len(text.push(c)) == byte_len(text) + utf8_len(c),
    decreases text.len(),
{
    if text.len() == 0 {
        assert(text.push(c).drop_first() == Seq::<char>::empty());
        assert(byte_len(text.push(c).drop_first()) == 0);
    } else {
        assert(text.push(c).drop_first() == text.drop_first().push(c));
        lemma_byte_len_push(text.drop_first(), c);
    }
}

/// Byte offsets grow with the index: by the length of each character passed.
pub proof fn lemma_byte_offset_next(text: Seq<char>, index: int)
    requires
        0 <= index < text.len(),
    ensures
        byte_offset(text, index + 1) == byte_offset(text, index) + utf8_len(text[index]),
{
    assert(text.take(index + 1) == text.take(index).push(text[index]));
    lemma_byte_len_push(text.take(index), text[index]);
}

/// No prefix of a text takes more bytes than the text.
pub proof fn lemma_byte_offset_bound(text: Seq<char>, index: int)
    requires
        0 <= index <= text.len(),
    ensures
        byte_offset(text, index) <= byte_len(text),
    decreases text.len() - index,
{
    if index < text.len() {
        lemma_byte_offset_next(text, index);
        lemma_byte_offset_bound(text, index + 1);
    } else {
        assert(text.take(index) == text);
    }
}

/// `byte_len` counts the bytes of the UTF-8 form.
pub proof fn lemma_byte_len_is_utf8(text: Seq<char>)
    ensures
        byte_len(text) == encode_utf8(text).len(),
    decreases text.len(),
{
    if text.len() > 0 {
        vstd::utf8::char_is_scalar(text[0]);
        lemma_byte_len_is_utf8(text.drop_first());
    }
}

/// The value of `c` as a hexadecimal digit, of either case.
pub fn hex_digit_value(c: char) -> (value: Option<u32>)
    ensures
        value == hex_value(c),
{
    let code: u32 = c as u32;
    if 0x30 <= code && code <= 0x39 {
        Some(code - 48)
    } else if 0x61 <= code && code <= 0x66 {
        Some(code - 87)
    } else if 0x41 <= code && code <= 0x46 {
        Some(code - 55)
    } else {
        None
    }
}

/// How many bytes the UTF-8 form of `c` takes.
pub fn char_len(c: char) -> (n: usize)
    ensures
        n == utf8_len(c),
{
    let code: u32 = c as u32;
    if code < 0x80 {
        1
    } else if code < 0x800 {
        2
    } else if code < 0x10000 {
        3
    } else {
        4
    }
}

/// `char::from_u32` hands back the character of code `value` where `value`
/// is a Unicode scalar value (at most U+10FFFF and no surrogate), and `None`
/// otherwise.
#[verifier::external_body]
fn char_from_code(value: u32) -> (c: Option<char>)
    ensures
        value <= 0x10ffff && !(0xd800 <= value <= 0xdfff) ==> c == Some(value as char),
        value > 0x10ffff || 0xd800 <= value <= 0xdfff ==> c is None,
{
    char::from_u32(value)
}

/// Where a reader stands in its input: at which character, and at which
/// byte.
#[derive(Clone, Copy, Debug)]
struct Cursor {
    index: usize,
    offset: usize,
}

/// Reads the body of a double-quoted literal and hands out, one at a time,
/// the characters that it stands for, each with the bytes it was read from.
#[derive(Debug)]
pub struct Unescape {
    chars: Vec<char>,
    cursor: Cursor,
    mode: Mode,
    span: Span,
}

impl Clone for Unescape {
    fn clone(&self) -> (copy: Unescape)
        ensures
            copy.text() == self.text(),
            copy.position() == self.position(),
            copy.mode() == self.mode(),
    {
        proof {
            use_type_invariant(self);
        }
        let chars = self.chars.clone();
        proof {
            assert(chars@ == self.chars@);
        }
        Unescape { chars, cursor: self.cursor, mode: self.mode, span: self.span }
    }
}

impl Unescape {
    #[verifier::type_invariant]
    spec fn wf(self) -> bool {
        &&& self.cursor.index <= self.chars@.len()
        &&& self.cursor.offset == byte_offset(self.chars@, self.cursor.index as int)
        &&& byte_len(self.chars@) <= usize::MAX
    }

    /// The body that is read.
    pub closed spec fn text(self) -> Seq<char> {
        self.chars@
    }

    /// The index of the next character to read.
    pub closed spec fn position(self) -> int {
        self.cursor.index as int
    }

    /// The mode in which the body is read.
    pub closed spec fn mode(self) -> Mode {
        self.mode
    }

    /// A reader at the start of `input`.
    pub fn new(input: &str, mode: Mode) -> (reader: Unescape)
        ensures
            reader.text() == input@,
            reader.position() == 0,
            reader.mode() == mode,
    {
        broadcast use vstd::slice::axiom_spec_len;

        let chars = chars_of(input);
        // The input holds its UTF-8 form, so the length of that form fits a `usize`.
        let bytes = input.as_bytes().len();
        proof {
            lemma_byte_len_is_utf8(input@);
            assert(chars@.take(0) == Seq::<char>::empty());
        }
        Unescape { chars, cursor: Cursor { index: 0, offset: 0 }, mode, span: Span::new() }
    }

    /// Reads the one character at the cursor into the span, and moves on.
    fn advance(&mut self) -> (c: char)
        requires
            old(self).cursor.index < old(self).chars@.len(),
        ensures
            final(self).chars == old(self).chars,
            final(self).mode == old(self).mode,
            final(self).cursor.index == old(self).cursor.index + 1,
            final(self).span.start == old(self).span.start,
            final(self).span.end == byte_offset(
                old(self).chars@,
                old(self).cursor.index as int + 1,
            ),
            c == old(self).chars@[old(self).cursor.index as int],
    {
        proof {
            use_type_invariant(&*self);
            lemma_byte_offset_next(self.chars@, self.cursor.index as int);
            lemma_byte_offset_bound(self.chars@, self.cursor.index as int + 1);
        }
        let count = self.chars.len();
        let c = self.chars[self.cursor.index];
        let end = self.cursor.offset + char_len(c);
        self.cursor = Cursor { index: self.cursor.index + 1, offset: end };
        self.span.end = end;
        c
    }

    /// Reads what follows a backslash: the character that names the escape
    /// and, for a unicode escape, its digits.
    fn parse_escape(&mut self) -> (item: Result<(Span, char), Error>)
        requires
            old(self).cursor.index >= 1,
            old(self).span == span_at(
                old(self).chars@,
                old(self).cursor.index as int - 1,
                old(self).cursor.index as int,
            ),
        ensures
            final(self).chars == old(self).chars,
            final(self).mode == old(self).mode,
            Some(item) == escape_step(old(self).chars@, old(self).cursor.index as int - 1).item,
            final(self).cursor.index == escape_step(
                old(self).chars@,
                old(self).cursor.index as int - 1,
            ).next,
    {
        proof {
            use_type_invariant(&*self);
        }
        if self.cursor.index >= self.chars.len() {
            return Err(Error::LoneSlash(self.span));
        }
        let c = self.advance();
        if c == 't' {
            Ok((self.span, '\t'))
        } else if c == 'n' {
            Ok((self.span, '\n'))
        } else if c == 'r' {
            Ok((self.span, '\r'))
        } else if c == '"' {
            Ok((self.span, '"'))
        } else if c == '\\' {
            Ok((self.span, '\\'))
        } else if c == 'u' {
            self.parse_unicode_escape(4)
        } else if c == 'U' {
            self.parse_unicode_escape(8)
        } else {
            Err(Error::InvalidEscape(self.span))
        }
    }

    /// Reads the `n` hexadecimal digits of a unicode escape and hands back
    /// the character that they name.
    fn parse_unicode_escape(&mut self, n: usize) -> (item: Result<(Span, char), Error>)
        requires
            n == 4 || n == 8,
            old(self).cursor.index >= 2,
            old(self).span == span_at(
                old(self).chars@,
                old(self).cursor.index as int - 2,
                old(self).cursor.index as int,
            ),
        ensures
            final(self).chars == old(self).chars,
            final(self).mode == old(self).mode,
            Some(item) == unicode_step(
                old(self).chars@,
                old(self).cursor.index as int - 2,
                n as nat,
            ).item,
            final(self).cursor.index == unicode_step(
                old(self).chars@,
                old(self).cursor.index as int - 2,
                n as nat,
            ).next,
    {
        let ghost text = self.chars@;
        let ghost first = self.cursor.index as int;
        let mut value: u32 = 0;
        let mut read: usize = 0;
        proof {
            lemma_pow16_small();
        }
        while read < n
            invariant
                n == 4 || n == 8,
                read <= n,
                self.chars == old(self).chars,
                self.mode == old(self).mode,
                text == self.chars@,
                first == old(self).cursor.index,
                first >= 2,
                self.cursor.index == first + read,
                self.span == span_at(text, first - 2, first + read),
                digit_run(text, first, n as nat) == read + digit_run(
                    text,
                    first + read,
                    (n - read) as nat,
                ),
                value == digits_value(text, first, read as nat),
                read < 8 ==> value < vstd::arithmetic::power::pow(16, read as nat),
            decreases n - read,
        {
            proof {
                use_type_invariant(&*self);
                lemma_digit_run_bounds(text, first + read, (n - read) as nat);
            }
            if self.cursor.index >= self.chars.len() {
                return Err(Error::IncompleteUnicodeEscape(self.span));
            }
            let c = self.advance();
            let digit = match hex_digit_value(c) {
                Some(digit) => digit,
                None => {
                    return Err(Error::InvalidCharInUnicodeEscape(self.span));
                },
            };
            proof {
                vstd::arithmetic::power::lemma_pow1(16);
                vstd::arithmetic::power::lemma_pow_adds(16, read as nat, 1);
                vstd::arithmetic::power::lemma_pow_adds(16, 4, 4);
                lemma_pow16_small();
                if read < 7 {
                    vstd::arithmetic::power::lemma_pow_increases(16, (read + 1) as nat, 7);
                }
                assert(value * 16 + digit < vstd::arithmetic::power::pow(16, (read + 1) as nat))
                    by (nonlinear_arith)
                    requires
                        value < vstd::arithmetic::power::pow(16, read as nat),
                        digit < 16,
                        vstd::arithmetic::power::pow(16, (read + 1) as nat)
                            == vstd::arithmetic::power::pow(16, read as nat) * 16,
                ;
            }
            value = value * 16 + digit;
            read += 1;
        }
        proof {
            lemma_digit_run_bounds(text, first, n as nat);
        }
        match char_from_code(value) {
            Some(c) => Ok((self.span, c)),
            None => if value > 0x10ffff {
                Err(Error::OutOfRangeUnicodeEscape(self.span))
            } else {
                Err(Error::SurrogateUnicodeEscape(self.span))
            },
        }
    }

    /// Passes over the ASCII whitespace at the cursor.
    fn skip_ascii_whitespace(&mut self)
        ensures
            final(self).chars == old(self).chars,
            final(self).mode == old(self).mode,
            final(self).cursor.index == skip_whitespace(
                old(self).chars@,
                old(self).cursor.index as int,
            ),
    {
        loop
            invariant
                self.chars == old(self).chars,
                self.mode == old(self).mode,
                old(self).cursor.index <= self.cursor.index,
                skip_whitespace(old(self).chars@, old(self).cursor.index as int)
                    == skip_whitespace(self.chars@, self.cursor.index as int),
            ensures
                self.chars == old(self).chars,
                self.mode == old(self).mode,
                self.cursor.index == skip_whitespace(
                    old(self).chars@,
                    old(self).cursor.index as int,
                ),
            decreases self.chars@.len() - self.cursor.index,
        {
            proof {
                use_type_invariant(&*self);
            }
            if self.cursor.index >= self.chars.len() {
                break ;
            }
            let c = self.chars[self.cursor.index];
            if !(c == ' ' || c == '\t' || c == '\n' || c == '\x0c' || c == '\r') {
                break ;
            }
            let skipped = self.advance();
        }
    }

    /// Hands out the next character of the text that the body stands for,
    /// with the bytes it was read from, or the error in what was read;
    /// `None` at the end of the input.
    pub fn next(&mut self) -> (item: Option<Result<(Span, char), Error>>)
        ensures
            final(self).text() == old(self).text(),
            final(self).mode() == old(self).mode(),
            item == step(old(self).text(), old(self).position(), old(self).mode()).item,
            final(self).position() == step(
                old(self).text(),
                old(self).position(),
                old(self).mode(),
            ).next,
    {
        let ghost text = self.chars@;
        let ghost mode = self.mode;
        loop
            invariant
                self.chars == old(self).chars,
                self.mode == old(self).mode,
                text == self.chars@,
                mode == self.mode,
                step(text, old(self).cursor.index as int, mode) == step(
                    text,
                    self.cursor.index as int,
                    mode,
                ),
            decreases self.chars@.len() - self.cursor.index,
        {
            proof {
                use_type_invariant(&*self);
            }
            if self.cursor.index >= self.chars.len() {
                return None;
            }
            let ghost index = self.cursor.index as int;
            self.span.start = self.cursor.offset;
            let c = self.advance();
            if c == '\t' {
                return Some(Ok((self.span, c)));
            } else if (c == '\n' || c == '\r') && self.mode == Mode::MultiLine {
                return Some(Ok((self.span, c)));
            } else if ascii_control(c) {
                return Some(Err(Error::EscapeOnlyChar(self.span)));
            } else if c == '"' && self.mode == Mode::SingleLine {
                return Some(Err(Error::EscapeOnlyChar(self.span)));
            } else if c == '\\' {
                proof {
                    use_type_invariant(&*self);
                }
                if self.mode == Mode::MultiLine && self.cursor.index < self.chars.len()
                    && self.chars[self.cursor.index] == '\n' {
                    proof {
                        lemma_skip_whitespace_bounds(text, index + 1);
                    }
                    self.skip_ascii_whitespace();
                    continue ;
                }
                return Some(self.parse_escape());
            } else {
                return Some(Ok((self.span, c)));
            }
        }
    }
}

/// The first powers of 16.
proof fn lemma_pow16_small()
    ensures
        vstd::arithmetic::power::pow(16, 0) == 1,
        vstd::arithmetic::power::pow(16, 7) == 0x1000_0000,
        vstd::arithmetic::power::pow(16, 8) == 0x1_0000_0000,
{
    reveal_with_fuel(vstd::arithmetic::power::pow, 10);
}

/// The text that the body `input` of a double-quoted literal stands for, or
/// the first error in it.
pub fn unescape(input: &str, mode: Mode) -> (text: Result<String, Error>)
    ensures
        match unescape_text(input@, mode) {
            Ok(expected) => text is Ok && text->Ok_0@ == expected,
            Err(e) => text == Err::<String, Error>(e),
        },
{
    let mut reader = Unescape::new(input, mode);
    let mut text = String::new();
    loop
        invariant
            reader.text() == input@,
            reader.mode() == mode,
            0 <= reader.position() <= input@.len(),
            unescape_text(input@, mode) == match unescape_from(
                input@,
                reader.position(),
                mode,
            ) {
                Ok(rest) => Ok(text@ + rest),
                Err(e) => Err(e),
            },
        decreases input@.len() - reader.position(),
    {
        let ghost index = reader.position();
        let ghost before = text@;
        proof {
            lemma_step_progress(input@, index, mode);
        }
        match reader.next() {
            None => {
                proof {
                    assert(before + Seq::<char>::empty() == before);
                }
                return Ok(text);
            },
            Some(Err(e)) => {
                return Err(e);
            },
            Some(Ok((_, c))) => {
                text.push(c);
                proof {
                    match unescape_from(input@, reader.position(), mode) {
                        Ok(rest) => {
                            assert(before + (seq![c] + rest) == before.push(c) + rest);
                        },
                        Err(e) => {},
                    }
                }
            },
        }
    }
}

} // verus!
