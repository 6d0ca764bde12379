//! Unescaping undoes escaping.

use super::escape::{escape_char, escape_text, hex_char, hex_digits, lemma_escape_text_first, nibble, unicode_escape};
use super::unescape::{digit_run, digits_value, escape_step, hex_value, step, unescape_from, unescape_text, unicode_step};
use super::{is_ascii_control, Mode};
use vstd::prelude::*;

verus! {

/// Reading a lowercase hexadecimal digit gives back its value.
pub proof fn lemma_hex_value_of_hex_char(d: int)
    requires
        0 <= d < 16,
    ensures
        hex_value(hex_char(d)) == Some(d as u32),
{
}

/// The four lowest hexadecimal digits of a code point below U+10000 spell
/// the code point.
proof fn lemma_nibbles_spell(code: u32)
    requires
        code < 0x10000,
    ensures
        nibble(code, 0) < 16,
        nibble(code, 1) < 16,
        nibble(code, 2) < 16,
        nibble(code, 3) < 16,
        ((nibble(code, 3) * 16 + nibble(code, 2)) * 16 + nibble(code, 1)) * 16 + nibble(code, 0)
            == code,
{
    assert((code >> 0u32) & 0xf < 16) by (bit_vector);
    assert((code >> 4u32) & 0xf < 16) by (bit_vector);
    assert((code >> 8u32) & 0xf < 16) by (bit_vector);
    assert((code >> 12u32) & 0xf < 16) by (bit_vector);
    assert(((((code >> 12u32) & 0xf) * 16 + ((code >> 8u32) & 0xf)) * 16 + ((code >> 4u32)
        & 0xf)) * 16 + ((code >> 0u32) & 0xf) == code) by (bit_vector)
        requires
            code < 0x10000,
    ;
}

/// Read back at the place where it stands, the numeric escape of a character
/// below U+10000 yields that character, and nothing of what follows is
/// read.
proof fn lemma_step_unicode(prefix: Seq<char>, c: char, tail: Seq<char>, mode: Mode)
    requires
        (c as u32) < 0x10000,
    ensures
        ({
            let text = prefix + unicode_escape(c) + tail;
            let s = unicode_step(text, prefix.len() as int, 4);
            &&& s.item matches Some(Ok((_, read)))
            &&& read == c
            &&& s.next == prefix.len() + 6
        }),
{
    let text = prefix + unicode_escape(c) + tail;
    let slash = prefix.len() as int;
    let first = slash + 2;
    let code = c as u32;
    reveal_with_fuel(hex_digits, 5);
    reveal_with_fuel(digit_run, 5);
    reveal_with_fuel(digits_value, 5);
    lemma_nibbles_spell(code);
    let piece = unicode_escape(c);
    assert(piece.len() == 6);
    assert(piece[2] == hex_char(nibble(code, 3) as int));
    assert(piece[3] == hex_char(nibble(code, 2) as int));
    assert(piece[4] == hex_char(nibble(code, 1) as int));
    assert(piece[5] == hex_char(nibble(code, 0) as int));
    assert(text[first] == piece[2]);
    assert(text[first + 1] == piece[3]);
    assert(text[first + 2] == piece[4]);
    assert(text[first + 3] == piece[5]);
    lemma_hex_value_of_hex_char(nibble(code, 3) as int);
    lemma_hex_value_of_hex_char(nibble(code, 2) as int);
    lemma_hex_value_of_hex_char(nibble(code, 1) as int);
    lemma_hex_value_of_hex_char(nibble(code, 0) as int);
    assert(digit_run(text, first, 4) == 4);
    assert(digits_value(text, first, 4) == code);
    assert(code as char == c);
}

/// Read back at the place where it stands, the escape of a character yields
/// that character, and nothing of what follows is read.
pub proof fn lemma_step_escaped(prefix: Seq<char>, c: char, tail: Seq<char>, mode: Mode)
    ensures
        ({
            let text = prefix + escape_char(c, mode) + tail;
            let s = step(text, prefix.len() as int, mode);
            &&& s.item matches Some(Ok((_, read)))
            &&& read == c
            &&& s.next == prefix.len() + escape_char(c, mode).len()
        }),
{
    let piece = escape_char(c, mode);
    let text = prefix + piece + tail;
    let index = prefix.len() as int;
    assert(text[index] == piece[0]);
    if piece.len() >= 2 {
        assert(text[index + 1] == piece[1]);
    }
    if is_ascii_control(c) && c != '\t' && c != '\n' && c != '\r' {
        lemma_step_unicode(prefix, c, tail, mode);
        super::escape::lemma_hex_digits_len(c as u32, 4);
    }
}

/// Unescaping what stands behind `prefix` in `prefix + escape_text(s)` gives
/// back `s`.
pub proof fn lemma_round_trip_from(prefix: Seq<char>, s: Seq<char>, mode: Mode)
    ensures
        unescape_from(prefix + escape_text(s, mode), prefix.len() as int, mode) == Ok::<
            Seq<char>,
            super::error::Error,
        >(s),
    decreases s.len(),
{
    let index = prefix.len() as int;
    if s.len() == 0 {
        assert(escape_text(s, mode) == Seq::<char>::empty());
        assert(prefix + escape_text(s, mode) == prefix);
        assert(s == Seq::<char>::empty());
    } else {
        let c = s[0];
        let rest = s.drop_first();
        assert(s == seq![c] + rest);
        lemma_escape_text_first(c, rest, mode);
        let piece = escape_char(c, mode);
        let tail = escape_text(rest, mode);
        let text = prefix + escape_text(s, mode);
        assert(text == prefix + piece + tail);
        lemma_step_escaped(prefix, c, tail, mode);
        lemma_round_trip_from(prefix + piece, rest, mode);
        assert(piece.len() >= 1);
        assert((prefix + piece).len() == index + piece.len());
        assert(text.len() == index + piece.len() + tail.len());
    }
}

/// Round trip: for every text and either mode, unescaping the escape of the
/// text gives the text back.
pub proof fn lemma_round_trip(s: Seq<char>, mode: Mode)
    ensures
        unescape_text(escape_text(s, mode), mode) == Ok::<Seq<char>, super::error::Error>(s),
{
    lemma_round_trip_from(Seq::empty(), s, mode);
    assert(Seq::<char>::empty() + escape_text(s, mode) == escape_text(s, mode));
}

} // verus!
