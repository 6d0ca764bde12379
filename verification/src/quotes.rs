//! The four ways to quote a string: single or double quotes, on one line or
//! over several.

use crate::escape::escape::{escape, escape_text};
use crate::escape::{Flags, Mode};
use crate::text::{push_repeated, push_text, repeat};
use vstd::prelude::*;

verus! {

/// A value between quotes, with the layout of the literal.
#[derive(Clone, Copy, Debug, PartialEq, Eq, PartialOrd, Ord, Hash)]
pub enum Quoted<T> {
    /// Between single delimiters, on one line.
    SingleLine(Quotes<T>),
    /// Between triple delimiters.
    MultiLine(Quotes<T>),
}

/// A value between quotes, with the kind of quote.
#[derive(Clone, Copy, Debug, PartialEq, Eq, PartialOrd, Ord, Hash)]
pub enum Quotes<T> {
    /// Between apostrophes: what stands there is taken as it is.
    Single(T),
    /// Between quotation marks: what stands there may hold escapes.
    Double(T),
}

impl<T: View> View for Quotes<T> {
    type V = Quotes<T::V>;

    open spec fn view(&self) -> Quotes<T::V> {
        match *self {
            Quotes::Single(t) => Quotes::Single(t@),
            Quotes::Double(t) => Quotes::Double(t@),
        }
    }
}

impl<T: View> View for Quoted<T> {
    type V = Quoted<T::V>;

    open spec fn view(&self) -> Quoted<T::V> {
        match *self {
            Quoted::SingleLine(quotes) => Quoted::SingleLine(quotes@),
            Quoted::MultiLine(quotes) => Quoted::MultiLine(quotes@),
        }
    }
}

impl<T> Quotes<T> {
    /// The value between the quotes.
    pub open spec fn spec_inner(self) -> T {
        match self {
            Quotes::Single(t) => t,
            Quotes::Double(t) => t,
        }
    }

    /// The value between the quotes.
    pub fn inner(&self) -> (t: &T)
        ensures
            *t == self.spec_inner(),
    {
        match self {
            Quotes::Single(t) => t,
            Quotes::Double(t) => t,
        }
    }

    /// The value between the quotes, without them.
    pub fn into_inner(self) -> (t: T)
        ensures
            t == self.spec_inner(),
    {
        match self {
            Quotes::Single(t) => t,
            Quotes::Double(t) => t,
        }
    }

    /// The same quotes around another value.
    pub open spec fn with<U>(self, u: U) -> Quotes<U> {
        match self {
            Quotes::Single(_) => Quotes::Single(u),
            Quotes::Double(_) => Quotes::Double(u),
        }
    }

    /// Applies `f` to the value between the quotes, and keeps the quotes.
    pub fn map<F: FnOnce(T) -> U, U>(self, f: F) -> (mapped: Quotes<U>)
        requires
            f.requires((self.spec_inner(),)),
        ensures
            f.ensures((self.spec_inner(),), mapped.spec_inner()),
            mapped == self.with(mapped.spec_inner()),
    {
        match self {
            Quotes::Single(t) => Quotes::Single(f(t)),
            Quotes::Double(t) => Quotes::Double(f(t)),
        }
    }
}

impl<T> Quoted<T> {
    /// The quotes and the value between them.
    pub open spec fn spec_quotes(self) -> Quotes<T> {
        match self {
            Quoted::SingleLine(quotes) => quotes,
            Quoted::MultiLine(quotes) => quotes,
        }
    }

    /// The value between the quotes.
    pub open spec fn spec_inner(self) -> T {
        self.spec_quotes().spec_inner()
    }

    /// The layout of the literal.
    pub open spec fn spec_mode(self) -> Mode {
        match self {
            Quoted::SingleLine(_) => Mode::SingleLine,
            Quoted::MultiLine(_) => Mode::MultiLine,
        }
    }

    /// The quotes and the value between them.
    pub fn quotes(&self) -> (quotes: &Quotes<T>)
        ensures
            *quotes == self.spec_quotes(),
    {
        match self {
            Quoted::SingleLine(quotes) => quotes,
            Quoted::MultiLine(quotes) => quotes,
        }
    }

    /// The value between the quotes.
    pub fn inner(&self) -> (t: &T)
        ensures
            *t == self.spec_inner(),
    {
        self.quotes().inner()
    }

    /// The value between the quotes, without them.
    pub fn into_inner(self) -> (t: T)
        ensures
            t == self.spec_inner(),
    {
        match self {
            Quoted::SingleLine(quotes) => quotes.into_inner(),
            Quoted::MultiLine(quotes) => quotes.into_inner(),
        }
    }

    /// The layout of the literal.
    pub fn mode(&self) -> (mode: Mode)
        ensures
            mode == self.spec_mode(),
    {
        match self {
            Quoted::SingleLine(_) => Mode::SingleLine,
            Quoted::MultiLine(_) => Mode::MultiLine,
        }
    }

    /// The same layout and quotes around another value.
    pub open spec fn with<U>(self, u: U) -> Quoted<U> {
        match self {
            Quoted::SingleLine(quotes) => Quoted::SingleLine(quotes.with(u)),
            Quoted::MultiLine(quotes) => Quoted::MultiLine(quotes.with(u)),
        }
    }

    /// The quoting that `flags` call for, around `input`. A text that holds
    /// an apostrophe or a character that must be escaped needs double
    /// quotes, every other text gets single quotes; a text that holds a line
    /// break is laid out over several lines.
    pub open spec fn select(flags: Flags, input: T) -> Quoted<T> {
        let quotes = if flags.has_escape || flags.has_apostrophe {
            Quotes::Double(input)
        } else {
            Quotes::Single(input)
        };
        if flags.has_lf_or_cr {
            Quoted::MultiLine(quotes)
        } else {
            Quoted::SingleLine(quotes)
        }
    }

    /// Applies `f` to the value between the quotes, and keeps layout and
    /// quotes.
    pub fn map<F: FnOnce(T) -> U, U>(self, f: F) -> (mapped: Quoted<U>)
        requires
            f.requires((self.spec_inner(),)),
        ensures
            f.ensures((self.spec_inner(),), mapped.spec_inner()),
            mapped == self.with(mapped.spec_inner()),
    {
        match self {
            Quoted::SingleLine(quotes) => Quoted::SingleLine(quotes.map(f)),
            Quoted::MultiLine(quotes) => Quoted::MultiLine(quotes.map(f)),
        }
    }
}

/// The literal of a quoted text: the body between one or three copies of the
/// quote. Between double quotes the body is the escape of the text, between
/// single quotes the text itself.
pub open spec fn quoted_text(quoted: Quoted<Seq<char>>) -> Seq<char> {
    let count: nat = if quoted.spec_mode() == Mode::SingleLine {
        1
    } else {
        3
    };
    match quoted.spec_quotes() {
        Quotes::Single(text) => repeat('\'', count) + text + repeat('\'', count),
        Quotes::Double(text) => repeat('"', count) + escape_text(text, quoted.spec_mode())
            + repeat('"', count),
    }
}

/// The literal of a text between one pair of quotes, the text taken as it
/// is.
pub open spec fn quotes_text(quotes: Quotes<Seq<char>>) -> Seq<char> {
    match quotes {
        Quotes::Single(text) => seq!['\''] + text + seq!['\''],
        Quotes::Double(text) => seq!['"'] + text + seq!['"'],
    }
}

impl Quotes<String> {
    /// The text between its quotes, taken as it is.
    pub fn to_string(&self) -> (text: String)
        ensures
            text@ == quotes_text(self@),
    {
        let mut text = String::new();
        match self {
            Quotes::Single(t) => {
                text.push('\'');
                push_text(&mut text, t.as_str());
                text.push('\'');
            },
            Quotes::Double(t) => {
                text.push('"');
                push_text(&mut text, t.as_str());
                text.push('"');
            },
        }
        text
    }
}

impl Quoted<String> {
    /// Chooses the quoting of `input` by what it holds.
    pub fn new(input: String) -> (quoted: Quoted<String>)
        ensures
            quoted == Quoted::select(Flags::of(input@), input),
    {
        let flags = Flags::parse(input.as_str());
        if flags.has_escape || flags.has_apostrophe {
            if flags.has_lf_or_cr {
                Quoted::MultiLine(Quotes::Double(input))
            } else {
                Quoted::SingleLine(Quotes::Double(input))
            }
        } else {
            if flags.has_lf_or_cr {
                Quoted::MultiLine(Quotes::Single(input))
            } else {
                Quoted::SingleLine(Quotes::Single(input))
            }
        }
    }

    /// The literal: the body between its quotes.
    pub fn to_string(&self) -> (text: String)
        ensures
            text@ == quoted_text(self@),
    {
        let mut text = String::new();
        let count: usize = match self {
            Quoted::SingleLine(_) => 1,
            Quoted::MultiLine(_) => 3,
        };
        match self.quotes() {
            Quotes::Single(t) => {
                push_repeated(&mut text, '\'', count);
                push_text(&mut text, t.as_str());
                push_repeated(&mut text, '\'', count);
            },
            Quotes::Double(t) => {
                let body = escape(t.as_str(), self.mode());
                push_repeated(&mut text, '"', count);
                push_text(&mut text, body.as_str());
                push_repeated(&mut text, '"', count);
            },
        }
        text
    }
}

} // verus!
