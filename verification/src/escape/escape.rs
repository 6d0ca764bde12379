use super::{ascii_control, is_ascii_control, Mode};
use vstd::prelude::*;

verus! {

/// The lowercase hexadecimal digit of value `d`.
pub open spec fn hex_char(d: int) -> char {
    if d < 10 {
        (48 + d) as char
    } else {
        (87 + d) as char
    }
}

/// The hexadecimal digit of `code` at place `k`, the lowest place being 0.
pub open spec fn nibble(code: u32, k: nat) -> u32 {
    (code >> ((4 * k) as u32)) & 0xf
}

/// The `count` lowest hexadecimal digits of `code`, the highest first.
pub open spec fn hex_digits(code: u32, count: nat) -> Seq<char>
    decreases count,
{
    if count == 0 {
        Seq::empty()
    } else {
        seq![hex_char(nibble(code, (count - 1) as nat) as int)] + hex_digits(
            code,
            (count - 1) as nat,
        )
    }
}

/// How many digits the numeric escape of `c` holds: 4 where the code point
/// fits in 16 bits, else 8.
pub open spec fn unicode_width(c: char) -> nat {
    if (c as u32) < 0x10000 {
        4
    } else {
        8
    }
}

/// The numeric escape of `c`: a backslash, `u` or `U`, and 4 or 8 lowercase
/// hexadecimal digits.
pub open spec fn unicode_escape(c: char) -> Seq<char> {
    seq!['\\', if unicode_width(c) == 4 { 'u' } else { 'U' }] + hex_digits(
        c as u32,
        unicode_width(c),
    )
}

/// What stands for `c` in the body of a double-quoted literal.
pub open spec fn escape_char(c: char, mode: Mode) -> Seq<char> {
    if c == '\t' {
        seq![c]
    } else if c == '\n' {
        if mode == Mode::SingleLine {
            seq!['\\', 'n']
        } else {
            seq![c]
        }
    } else if c == '\r' {
        if mode == Mode::SingleLine {
            seq!['\\', 'r']
        } else {
            seq![c]
        }
    } else if is_ascii_control(c) {
        unicode_escape(c)
    } else if c == '"' && mode == Mode::SingleLine {
        seq!['\\', c]
    } else if c == '\\' {
        seq!['\\', c]
    } else {
        seq![c]
    }
}

/// The body of the double-quoted literal of `text`: the escapes of its
/// characters, one after the other.
pub open spec fn escape_text(text: Seq<char>, mode: Mode) -> Seq<char>
    decreases text.len(),
{
    if text.len() == 0 {
        Seq::empty()
    } else {
        escape_text(text.drop_last(), mode) + escape_char(text.last(), mode)
    }
}

/// The escape of a text that starts with `c` starts with the escape of `c`.
pub proof fn lemma_escape_text_first(c: char, rest: Seq<char>, mode: Mode)
    ensures
        escape_text(seq![c] + rest, mode) == escape_char(c, mode) + escape_text(rest, mode),
    decreases rest.len(),
{
    let text = seq![c] + rest;
    if rest.len() == 0 {
        assert(text.drop_last() == Seq::<char>::empty());
        assert(escape_text(text.drop_last(), mode) == Seq::<char>::empty());
        assert(text.last() == c);
        assert(escape_text(text, mode) == Seq::<char>::empty() + escape_char(c, mode));
    } else {
        lemma_escape_text_first(c, rest.drop_last(), mode);
        assert(text.drop_last() == seq![c] + rest.drop_last());
        assert(text.last() == rest.last());
        assert(escape_text(text, mode) == (escape_char(c, mode) + escape_text(
            rest.drop_last(),
            mode,
        )) + escape_char(rest.last(), mode));
    }
}

/// The body of the double-quoted literal of `input`.
pub fn escape(input: &str, mode: Mode) -> (body: String)
    ensures
        body@ == escape_text(input@, mode),
{
    broadcast use vstd::string::group_string_axioms;

    let mut body = String::new();
    for c in it: input.chars()
        invariant
            it.seq() == input@,
            body@ == escape_text(input@.take(it.index()), mode),
    {
        proof {
            let next = input@.take(it.index() + 1);
            assert(next.drop_last() == input@.take(it.index()));
            assert(next.last() == c);
        }
        let mut piece = Escape::new(c, mode);
        let ghost start = body@;
        loop
            invariant
                start + escape_char(c, mode) == body@ + piece@,
            ensures
                body@ == start + escape_char(c, mode),
            decreases piece@.len(),
        {
            match piece.next() {
                Some(e) => {
                    body.push(e);
                },
                None => {
                    break ;
                },
            }
        }
    }
    proof {
        assert(input@.take(input@.len() as int) == input@);
    }
    body
}

/// The characters that stand for one character in the body of a
/// double-quoted literal, handed out one at a time.
#[derive(Clone, Debug)]
pub struct Escape {
    state: EscapeState,
}

impl View for Escape {
    type V = Seq<char>;

    /// The characters that are still to come.
    closed spec fn view(&self) -> Seq<char> {
        match self.state {
            EscapeState::Done => Seq::empty(),
            EscapeState::Char(c) => seq![c],
            EscapeState::Backslash(c) => seq!['\\', c],
            EscapeState::Unicode(unicode) => unicode@,
        }
    }
}

impl Escape {
    /// Starts the escape of `c`.
    pub fn new(c: char, mode: Mode) -> (escape: Escape)
        ensures
            escape@ == escape_char(c, mode),
    {
        let state = if c == '\t' {
            EscapeState::Char(c)
        } else if c == '\n' {
            match mode {
                Mode::SingleLine => EscapeState::Backslash('n'),
                Mode::MultiLine => EscapeState::Char(c),
            }
        } else if c == '\r' {
            match mode {
                Mode::SingleLine => EscapeState::Backslash('r'),
                Mode::MultiLine => EscapeState::Char(c),
            }
        } else if ascii_control(c) {
            EscapeState::Unicode(EscapeUnicode::new(c))
        } else if c == '"' && mode == Mode::SingleLine {
            EscapeState::Backslash(c)
        } else if c == '\\' {
            EscapeState::Backslash(c)
        } else {
            EscapeState::Char(c)
        };
        Escape { state }
    }

    /// Hands out the next character, if one is left.
    pub fn next(&mut self) -> (item: Option<char>)
        ensures
            old(self)@.len() == 0 ==> item is None && final(self)@ == old(self)@,
            old(self)@.len() > 0 ==> item == Some(old(self)@[0]) && final(self)@ == old(
                self,
            )@.drop_first(),
    {
        match &mut self.state {
            EscapeState::Backslash(c) => {
                let c = *c;
                self.state = EscapeState::Char(c);
                proof {
                    assert(seq!['\\', c].drop_first() == seq![c]);
                }
                Some('\\')
            },
            EscapeState::Char(c) => {
                let c = *c;
                self.state = EscapeState::Done;
                proof {
                    assert(seq![c].drop_first() == Seq::<char>::empty());
                }
                Some(c)
            },
            EscapeState::Done => None,
            EscapeState::Unicode(unicode) => unicode.next(),
        }
    }

    /// How many characters are left.
    pub fn len(&self) -> (n: usize)
        ensures
            n == self@.len(),
    {
        match &self.state {
            EscapeState::Done => 0,
            EscapeState::Char(_) => 1,
            EscapeState::Backslash(_) => 2,
            EscapeState::Unicode(unicode) => unicode.len(),
        }
    }

    /// The bounds on how many characters are left: both are the exact
    /// count.
    pub fn size_hint(&self) -> (hint: (usize, Option<usize>))
        ensures
            hint.0 == self@.len(),
            hint.1 == Some(hint.0),
    {
        let n = self.len();
        (n, Some(n))
    }

    /// Uses the escape up, and says how many characters were left.
    pub fn count(self) -> (n: usize)
        ensures
            n == self@.len(),
    {
        self.len()
    }

    /// Skips `n` characters and hands out the one after them. Where fewer
    /// than `n + 1` are left, all are used up and none is handed out.
    pub fn nth(&mut self, n: usize) -> (item: Option<char>)
        ensures
            n < old(self)@.len() ==> item == Some(old(self)@[n as int]) && final(self)@ == old(
                self,
            )@.skip(n + 1),
            n >= old(self)@.len() ==> item is None && final(self)@ == Seq::<char>::empty(),
    {
        let mut skipped: usize = 0;
        while skipped < n
            invariant
                skipped <= n,
                skipped <= old(self)@.len(),
                self@ == old(self)@.skip(skipped as int),
            decreases n - skipped,
        {
            let ghost before = self@;
            if self.next().is_none() {
                return None;
            }
            proof {
                assert(before.drop_first() == old(self)@.skip(skipped + 1));
            }
            skipped += 1;
        }
        proof {
            if n < old(self)@.len() {
                assert(old(self)@.skip(n as int).drop_first() == old(self)@.skip(n + 1));
            }
        }
        self.next()
    }

    /// Uses the escape up, and hands out the last character that was left.
    pub fn last(self) -> (item: Option<char>)
        ensures
            self@.len() == 0 ==> item is None,
            self@.len() > 0 ==> item == Some(self@.last()),
    {
        let mut rest = self;
        let mut item: Option<char> = None;
        loop
            invariant
                rest@.len() == 0 ==> (if self@.len() == 0 {
                    item is None
                } else {
                    item == Some(self@.last())
                }),
                rest@.len() > 0 ==> rest@.len() <= self@.len() && rest@.last() == self@.last(),
            ensures
                self@.len() == 0 ==> item is None,
                self@.len() > 0 ==> item == Some(self@.last()),
            decreases rest@.len(),
        {
            let ghost before = rest@;
            match rest.next() {
                Some(c) => {
                    proof {
                        if before.len() > 1 {
                            assert(before.drop_first().last() == before.last());
                        }
                    }
                    item = Some(c);
                },
                None => {
                    break ;
                },
            }
        }
        item
    }
}

/// The characters of a numeric escape, handed out one at a time.
#[derive(Debug)]
pub struct EscapeUnicode {
    c: char,
    state: EscapeUnicodeState,
    index: usize,
}

impl View for EscapeUnicode {
    type V = Seq<char>;

    /// The characters that are still to come.
    closed spec fn view(&self) -> Seq<char> {
        match self.state {
            EscapeUnicodeState::Done => Seq::empty(),
            EscapeUnicodeState::Value => hex_digits(self.c as u32, (self.index + 1) as nat),
            EscapeUnicodeState::Type => seq![if self.index < 4 { 'u' } else { 'U' }] + hex_digits(
                self.c as u32,
                (self.index + 1) as nat,
            ),
            EscapeUnicodeState::Backslash => seq!['\\', if self.index < 4 { 'u' } else { 'U' }]
                + hex_digits(self.c as u32, (self.index + 1) as nat),
        }
    }
}

impl Clone for EscapeUnicode {
    fn clone(&self) -> (copy: EscapeUnicode)
        ensures
            copy == *self,
    {
        proof {
            use_type_invariant(self);
        }
        EscapeUnicode { c: self.c, state: self.state, index: self.index }
    }
}

impl EscapeUnicode {
    #[verifier::type_invariant]
    spec fn wf(self) -> bool {
        &&& self.index <= 7
        &&& self.state is Done ==> self.index == 0
    }

    /// Starts the numeric escape of `c`.
    pub fn new(c: char) -> (escape: EscapeUnicode)
        ensures
            escape@ == unicode_escape(c),
    {
        let index: usize = if (c as u32) < 0x10000 {
            3
        } else {
            7
        };
        EscapeUnicode { c, state: EscapeUnicodeState::Backslash, index }
    }

    /// Hands out the next character, if one is left.
    pub fn next(&mut self) -> (item: Option<char>)
        ensures
            old(self)@.len() == 0 ==> item is None && final(self)@ == old(self)@,
            old(self)@.len() > 0 ==> item == Some(old(self)@[0]) && final(self)@ == old(
                self,
            )@.drop_first(),
    {
        proof {
            use_type_invariant(&*self);
        }
        match self.state {
            EscapeUnicodeState::Backslash => {
                self.state = EscapeUnicodeState::Type;
                proof {
                    assert(old(self)@.drop_first() == self@);
                }
                Some('\\')
            },
            EscapeUnicodeState::Type => {
                self.state = EscapeUnicodeState::Value;
                proof {
                    assert(old(self)@.drop_first() == self@);
                }
                if self.index < 4 {
                    Some('u')
                } else {
                    Some('U')
                }
            },
            EscapeUnicodeState::Value => {
                let shift: u32 = (self.index * 4) as u32;
                let digit: u32 = ((self.c as u32) >> shift) & 0xf;
                proof {
                    let code = self.c as u32;
                    assert((code >> shift) & 0xf < 16) by (bit_vector);
                    assert(old(self)@.drop_first() == hex_digits(code, self.index as nat));
                    reveal_with_fuel(hex_digits, 2);
                }
                let c = hex_digit(digit);
                if self.index == 0 {
                    self.state = EscapeUnicodeState::Done;
                } else {
                    self.index -= 1;
                }
                Some(c)
            },
            EscapeUnicodeState::Done => None,
        }
    }

    /// How many characters are left.
    pub fn len(&self) -> (n: usize)
        ensures
            n == self@.len(),
    {
        proof {
            use_type_invariant(self);
            lemma_hex_digits_len(self.c as u32, (self.index + 1) as nat);
        }
        self.index + match self.state {
            EscapeUnicodeState::Done => 0,
            EscapeUnicodeState::Value => 1,
            EscapeUnicodeState::Type => 2,
            EscapeUnicodeState::Backslash => 3,
        }
    }

    /// The bounds on how many characters are left: both are the exact
    /// count.
    pub fn size_hint(&self) -> (hint: (usize, Option<usize>))
        ensures
            hint.0 == self@.len(),
            hint.1 == Some(hint.0),
    {
        let n = self.len();
        (n, Some(n))
    }

    /// Uses the escape up, and says how many characters were left.
    pub fn count(self) -> (n: usize)
        ensures
            n == self@.len(),
    {
        self.len()
    }

    /// Uses the escape up, and hands out the last character that was left:
    /// the lowest digit.
    pub fn last(self) -> (item: Option<char>)
        ensures
            self@.len() == 0 ==> item is None,
            self@.len() > 0 ==> item == Some(self@.last()),
    {
        proof {
            use_type_invariant(&self);
            lemma_hex_digits_len(self.c as u32, (self.index + 1) as nat);
            lemma_hex_digits_last(self.c as u32, (self.index + 1) as nat);
        }
        match self.state {
            EscapeUnicodeState::Done => None,
            _ => {
                let digit: u32 = (self.c as u32) & 0xf;
                proof {
                    let code = self.c as u32;
                    assert(code & 0xf < 16) by (bit_vector);
                    assert((code >> 0u32) & 0xf == code & 0xf) by (bit_vector);
                }
                Some(hex_digit(digit))
            },
        }
    }
}

/// The lowercase hexadecimal digit of value `d`.
pub fn hex_digit(d: u32) -> (c: char)
    requires
        d < 16,
    ensures
        c == hex_char(d as int),
{
    if d < 10 {
        (48u8 + d as u8) as char
    } else {
        (87u8 + d as u8) as char
    }
}

/// `hex_digits` hands out as many digits as were asked for.
pub proof fn lemma_hex_digits_len(code: u32, count: nat)
    ensures
        hex_digits(code, count).len() == count,
    decreases count,
{
    if count > 0 {
        lemma_hex_digits_len(code, (count - 1) as nat);
    }
}

/// The last of the digits is the lowest one.
pub proof fn lemma_hex_digits_last(code: u32, count: nat)
    requires
        count > 0,
    ensures
        hex_digits(code, count).last() == hex_char(nibble(code, 0) as int),
    decreases count,
{
    lemma_hex_digits_len(code, (count - 1) as nat);
    if count > 1 {
        lemma_hex_digits_last(code, (count - 1) as nat);
    }
}

#[derive(Clone, Debug)]
enum EscapeState {
    Done,
    Char(char),
    Backslash(char),
    Unicode(EscapeUnicode),
}

#[derive(Clone, Copy, Debug)]
enum EscapeUnicodeState {
    Done,
    Value,
    Type,
    Backslash,
}

} // verus!
