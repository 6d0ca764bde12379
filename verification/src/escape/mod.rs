//! Transcoding between a string and the body of its double-quoted literal.
//!
//! Only double-quoted strings can hold escapes. What has to be escaped:
//! - single-line: the quotation mark, the backslash, and the control
//!   characters other than tab (U+0000 to U+0008, U+000A to U+001F, U+007F);
//! - multi-line: the backslash and the control characters other than tab,
//!   line feed and carriage return.

use vstd::prelude::*;

pub mod error;
pub mod escape;
pub mod round_trip;
pub mod unescape;

verus! {

/// Is `c` an ASCII control character (U+0000 to U+001F, or U+007F)?
pub open spec fn is_ascii_control(c: char) -> bool {
    c as u32 <= 0x1f || c as u32 == 0x7f
}

/// Is `c` one of the characters a bare key may hold: `A-Z`, `a-z`, `0-9`,
/// `_` and `-`?
pub open spec fn is_bare(c: char) -> bool {
    ||| 'a' <= c <= 'z'
    ||| 'A' <= c <= 'Z'
    ||| '0' <= c <= '9'
    ||| c == '_'
    ||| c == '-'
}

/// Is `c` a line feed or a carriage return?
pub open spec fn is_line_break(c: char) -> bool {
    c == '\n' || c == '\r'
}

/// Is `c` a control character that no literal can hold as it is: an ASCII
/// control character other than tab, line feed and carriage return?
pub open spec fn is_escape_only(c: char) -> bool {
    is_ascii_control(c) && c != '\t' && c != '\n' && c != '\r'
}

/// Executable form of [`is_ascii_control`].
pub fn ascii_control(c: char) -> (r: bool)
    ensures
        r == is_ascii_control(c),
{
    let code: u32 = c as u32;
    code <= 0x1f || code == 0x7f
}

/// Executable form of [`is_bare`].
pub fn bare(c: char) -> (r: bool)
    ensures
        r == is_bare(c),
{
    let code: u32 = c as u32;
    (0x61 <= code && code <= 0x7a) || (0x41 <= code && code <= 0x5a) || (0x30 <= code && code
        <= 0x39) || code == 0x5f || code == 0x2d
}

/// What a text holds that decides how it can be quoted.
#[derive(Clone, Copy, Debug, PartialEq, Eq, Structural)]
pub struct Flags {
    /// Some character is outside `[A-Za-z0-9_-]`.
    pub is_quoted: bool,
    /// A line feed or a carriage return occurs.
    pub has_lf_or_cr: bool,
    /// An ASCII control character other than tab, line feed and carriage
    /// return occurs.
    pub has_escape: bool,
    /// An apostrophe occurs.
    pub has_apostrophe: bool,
}

impl Default for Flags {
    fn default() -> (flags: Flags)
        ensures
            flags == Flags::none(),
    {
        Flags { is_quoted: false, has_lf_or_cr: false, has_escape: false, has_apostrophe: false }
    }
}

impl Flags {
    /// The flags of the empty text.
    pub open spec fn none() -> Flags {
        Flags { is_quoted: false, has_lf_or_cr: false, has_escape: false, has_apostrophe: false }
    }

    /// The flags of a text: each one holds when some character raises it.
    pub open spec fn of(text: Seq<char>) -> Flags {
        Flags {
            is_quoted: exists|i: int| 0 <= i < text.len() && !is_bare(#[trigger] text[i]),
            has_lf_or_cr: exists|i: int| 0 <= i < text.len() && is_line_break(#[trigger] text[i]),
            has_escape: exists|i: int| 0 <= i < text.len() && is_escape_only(#[trigger] text[i]),
            has_apostrophe: exists|i: int| 0 <= i < text.len() && #[trigger] text[i] == '\'',
        }
    }

    /// Are all four flags raised?
    pub open spec fn all(self) -> bool {
        self.is_quoted && self.has_lf_or_cr && self.has_escape && self.has_apostrophe
    }

    /// Scans `input` once from left to right, and stops as soon as all four
    /// flags are raised.
    pub fn parse(input: &str) -> (flags: Flags)
        ensures
            flags == Flags::of(input@),
    {
        broadcast use vstd::string::group_string_axioms;

        let mut flags = Flags::default();
        for c in it: input.chars()
            invariant
                it.seq() == input@,
                flags == Flags::of(input@.take(it.index())),
        {
            let ghost seen = input@.take(it.index());
            let ghost next = input@.take(it.index() + 1);
            proof {
                assert(next == seen.push(c));
                lemma_flags_push(seen, c);
            }
            if !flags.is_quoted {
                flags.is_quoted = !bare(c);
            }
            if !flags.has_lf_or_cr {
                flags.has_lf_or_cr = c == '\n' || c == '\r';
            }
            if !flags.has_escape {
                flags.has_escape = ascii_control(c) && c != '\t' && c != '\n' && c != '\r';
            }
            if !flags.has_apostrophe {
                flags.has_apostrophe = c == '\'';
            }
            if flags.is_quoted && flags.has_lf_or_cr && flags.has_escape && flags.has_apostrophe {
                proof {
                    lemma_flags_saturated(next, input@);
                }
                return flags;
            }
        }
        proof {
            assert(input@.take(input@.len() as int) == input@);
        }
        flags
    }
}

/// Appending a character raises the flags of that character, and lowers
/// none.
pub proof fn lemma_flags_push(text: Seq<char>, c: char)
    ensures
        Flags::of(text.push(c)).is_quoted == (Flags::of(text).is_quoted || !is_bare(c)),
        Flags::of(text.push(c)).has_lf_or_cr == (Flags::of(text).has_lf_or_cr || is_line_break(c)),
        Flags::of(text.push(c)).has_escape == (Flags::of(text).has_escape || is_escape_only(c)),
        Flags::of(text.push(c)).has_apostrophe == (Flags::of(text).has_apostrophe || c == '\''),
{
    let longer = text.push(c);
    let n = text.len() as int;
    assert(longer[n] == c);
    assert forall|i: int| 0 <= i < n implies longer[i] == text[i] by {}
    if Flags::of(text).is_quoted {
        let i = choose|i: int| 0 <= i < text.len() && !is_bare(#[trigger] text[i]);
        assert(!is_bare(longer[i]));
    }
    if Flags::of(text).has_lf_or_cr {
        let i = choose|i: int| 0 <= i < text.len() && is_line_break(#[trigger] text[i]);
        assert(is_line_break(longer[i]));
    }
    if Flags::of(text).has_escape {
        let i = choose|i: int| 0 <= i < text.len() && is_escape_only(#[trigger] text[i]);
        assert(is_escape_only(longer[i]));
    }
    if Flags::of(text).has_apostrophe {
        let i = choose|i: int| 0 <= i < text.len() && #[trigger] text[i] == '\'';
        assert(longer[i] == '\'');
    }
}

/// Once a prefix raises all four flags, so does the whole text.
pub proof fn lemma_flags_saturated(prefix: Seq<char>, text: Seq<char>)
    requires
        prefix.is_prefix_of(text),
        Flags::of(prefix).all(),
    ensures
        Flags::of(text) == Flags::of(prefix),
{
    let a = choose|i: int| 0 <= i < prefix.len() && !is_bare(#[trigger] prefix[i]);
    assert(!is_bare(text[a]));
    let b = choose|i: int| 0 <= i < prefix.len() && is_line_break(#[trigger] prefix[i]);
    assert(is_line_break(text[b]));
    let c = choose|i: int| 0 <= i < prefix.len() && is_escape_only(#[trigger] prefix[i]);
    assert(is_escape_only(text[c]));
    let d = choose|i: int| 0 <= i < prefix.len() && #[trigger] prefix[i] == '\'';
    assert(text[d] == '\'');
}

/// The flags of a text depend on which characters occur in it, not on where:
/// two texts that are rearrangements of one another have the same flags.
pub proof fn lemma_flags_order_independent(s: Seq<char>, t: Seq<char>)
    requires
        s.to_multiset() == t.to_multiset(),
    ensures
        Flags::of(s) == Flags::of(t),
{
    lemma_flags_carried(s, t);
    lemma_flags_carried(t, s);
}

/// Every flag that `s` raises is raised by any text that holds the
/// characters of `s`.
proof fn lemma_flags_carried(s: Seq<char>, t: Seq<char>)
    requires
        s.to_multiset() == t.to_multiset(),
    ensures
        Flags::of(s).is_quoted ==> Flags::of(t).is_quoted,
        Flags::of(s).has_lf_or_cr ==> Flags::of(t).has_lf_or_cr,
        Flags::of(s).has_escape ==> Flags::of(t).has_escape,
        Flags::of(s).has_apostrophe ==> Flags::of(t).has_apostrophe,
{
    if Flags::of(s).is_quoted {
        let i = choose|i: int| 0 <= i < s.len() && !is_bare(#[trigger] s[i]);
        let j = lemma_occurs(s, t, i);
        assert(!is_bare(t[j]));
    }
    if Flags::of(s).has_lf_or_cr {
        let i = choose|i: int| 0 <= i < s.len() && is_line_break(#[trigger] s[i]);
        let j = lemma_occurs(s, t, i);
        assert(is_line_break(t[j]));
    }
    if Flags::of(s).has_escape {
        let i = choose|i: int| 0 <= i < s.len() && is_escape_only(#[trigger] s[i]);
        let j = lemma_occurs(s, t, i);
        assert(is_escape_only(t[j]));
    }
    if Flags::of(s).has_apostrophe {
        let i = choose|i: int| 0 <= i < s.len() && #[trigger] s[i] == '\'';
        let j = lemma_occurs(s, t, i);
        assert(t[j] == '\'');
    }
}

/// A character of `s` occurs somewhere in any text that holds the characters
/// of `s`.
proof fn lemma_occurs(s: Seq<char>, t: Seq<char>, i: int) -> (j: int)
    requires
        s.to_multiset() == t.to_multiset(),
        0 <= i < s.len(),
    ensures
        0 <= j < t.len(),
        t[j] == s[i],
{
    s.to_multiset_ensures();
    t.to_multiset_ensures();
    assert(s.contains(s[i]));
    assert(t.to_multiset().count(s[i]) > 0);
    assert(t.contains(s[i]));
    choose|j: int| 0 <= j < t.len() && t[j] == s[i]
}

/// How a quoted string is laid out.
#[derive(Clone, Copy, Debug, PartialEq, Eq, Structural)]
pub enum Mode {
    /// Between single delimiters, on one line: the delimiter and line breaks
    /// must be escaped.
    SingleLine,
    /// Between triple delimiters: the delimiter and line breaks may stand as
    /// they are.
    MultiLine,
}

/// A range of bytes of the input, `start` included and `end` excluded.
#[derive(Clone, Copy, Debug, PartialEq, Eq, Structural)]
pub struct Span {
    /// The first byte of the range.
    pub start: usize,
    /// The byte after the last one of the range.
    pub end: usize,
}

impl Span {
    /// The empty span at the start of the input.
    pub fn new() -> (span: Span)
        ensures
            span == (Span { start: 0, end: 0 }),
    {
        Span { start: 0, end: 0 }
    }
}

} // verus!
