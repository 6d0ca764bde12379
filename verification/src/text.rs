//! Building and reading strings, character by character.

use vstd::prelude::*;

verus! {

/// `String::push` appends the character to the end of the string and leaves
/// what was there as it was.
pub assume_specification[ std::string::String::push ](s: &mut std::string::String, c: char)
    ensures
        final(s)@ == old(s)@.push(c),
;

/// The characters of `s`, in order.
pub fn chars_of(s: &str) -> (chars: Vec<char>)
    ensures
        chars@ == s@,
{
    broadcast use vstd::string::group_string_axioms;

    let mut chars: Vec<char> = Vec::new();
    for c in it: s.chars()
        invariant
            it.seq() == s@,
            chars@.len() == it.index(),
            forall|j: int| 0 <= j < chars@.len() ==> chars@[j] == it.seq()[j],
    {
        chars.push(c);
    }
    chars
}

/// `count` copies of `c`.
pub open spec fn repeat(c: char, count: nat) -> Seq<char> {
    Seq::new(count, |i: int| c)
}

/// Appends `count` copies of `c` to `out`.
pub fn push_repeated(out: &mut String, c: char, count: usize)
    ensures
        final(out)@ == old(out)@ + repeat(c, count as nat),
{
    let mut done: usize = 0;
    while done < count
        invariant
            done <= count,
            out@ == old(out)@ + repeat(c, done as nat),
        decreases count - done,
    {
        out.push(c);
        done += 1;
        proof {
            assert(repeat(c, done as nat) == repeat(c, (done - 1) as nat).push(c));
        }
    }
}

/// Appends the characters of `text` to `out`.
pub fn push_text(out: &mut String, text: &str)
    ensures
        final(out)@ == old(out)@ + text@,
{
    broadcast use vstd::string::group_string_axioms;

    for c in it: text.chars()
        invariant
            it.seq() == text@,
            out@ == old(out)@ + text@.take(it.index()),
    {
        proof {
            assert(text@.take(it.index() + 1) == text@.take(it.index()).push(c));
        }
        out.push(c);
    }
    proof {
        assert(text@.take(text@.len() as int) == text@);
    }
}

/// Do the two texts hold the same characters?
pub fn str_eq(a: &str, b: &str) -> (equal: bool)
    ensures
        equal == (a@ == b@),
{
    let x = chars_of(a);
    let y = chars_of(b);
    if x.len() != y.len() {
        return false;
    }
    let mut i: usize = 0;
    while i < x.len()
        invariant
            x@ == a@,
            y@ == b@,
            x@.len() == y@.len(),
            i <= x@.len(),
            x@.take(i as int) == y@.take(i as int),
        decreases x@.len() - i,
    {
        if x[i] != y[i] {
            proof {
                assert(a@[i as int] != b@[i as int]);
            }
            return false;
        }
        proof {
            assert(x@.take(i + 1) == x@.take(i as int).push(x@[i as int]));
            assert(y@.take(i + 1) == y@.take(i as int).push(y@[i as int]));
        }
        i += 1;
    }
    proof {
        assert(x@.take(x@.len() as int) == x@);
        assert(y@.take(y@.len() as int) == y@);
    }
    true
}

/// The code point of `c`.
pub open spec fn code_point(c: char) -> int {
    c as int
}

/// The code point of `c`.
pub fn code_of(c: char) -> (code: u32)
    ensures
        code == code_point(c),
{
    c as u32
}

/// How one thing stands to another in an order.
#[derive(Clone, Copy, Debug, PartialEq, Eq, Structural)]
pub enum Sign {
    /// Before.
    Less,
    /// At the same place.
    Equal,
    /// Behind.
    Greater,
}

/// How `a` stands to `b` in the order of texts: as the first characters in
/// which they differ stand by code point; a text stands before every text
/// that it starts.
pub open spec fn text_sign(a: Seq<char>, b: Seq<char>) -> Sign
    decreases a.len(),
{
    if a.len() == 0 {
        if b.len() == 0 {
            Sign::Equal
        } else {
            Sign::Less
        }
    } else if b.len() == 0 {
        Sign::Greater
    } else if a[0] != b[0] {
        if code_point(a[0]) < code_point(b[0]) {
            Sign::Less
        } else {
            Sign::Greater
        }
    } else {
        text_sign(a.drop_first(), b.drop_first())
    }
}

/// How `a` stands to `b` in the order of texts.
pub fn sign_of_texts(a: &str, b: &str) -> (sign: Sign)
    ensures
        sign == text_sign(a@, b@),
{
    let x = chars_of(a);
    let y = chars_of(b);
    let mut i: usize = 0;
    proof {
        assert(x@.skip(0) == x@);
        assert(y@.skip(0) == y@);
    }
    loop
        invariant
            i <= x@.len(),
            i <= y@.len(),
            x@ == a@,
            y@ == b@,
            text_sign(a@, b@) == text_sign(x@.skip(i as int), y@.skip(i as int)),
        decreases x@.len() - i,
    {
        proof {
            let rest_x = x@.skip(i as int);
            let rest_y = y@.skip(i as int);
            if i < x@.len() {
                assert(rest_x[0] == x@[i as int]);
                assert(rest_x.drop_first() == x@.skip(i + 1));
            }
            if i < y@.len() {
                assert(rest_y[0] == y@[i as int]);
                assert(rest_y.drop_first() == y@.skip(i + 1));
            }
        }
        if i >= x.len() {
            if i >= y.len() {
                return Sign::Equal;
            } else {
                return Sign::Less;
            }
        }
        if i >= y.len() {
            return Sign::Greater;
        }
        let c = code_of(x[i]);
        let d = code_of(y[i]);
        if c < d {
            return Sign::Less;
        }
        if c > d {
            return Sign::Greater;
        }
        i += 1;
    }
}

} // verus!
