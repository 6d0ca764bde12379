//! Dotted keys and their segments.

use crate::escape::escape::{escape, escape_text};
use crate::escape::Flags;
use crate::quotes::{quoted_text, Quoted, Quotes};
use crate::text::{push_text, str_eq};
use vstd::prelude::*;

verus! {

/// One component of a dotted key: bare, or between quotes. Two segments are
/// equal, and hash alike, where their texts are equal, however they are
/// quoted.
#[derive(Clone, Debug)]
pub enum Segment {
    /// A segment of `A-Z`, `a-z`, `0-9`, `_` and `-` only, written as it is.
    Unquoted(String),
    /// A segment written between quotes.
    Quoted(Quoted<String>),
}

/// How a segment of text `text` is written: bare where every character may
/// stand in a bare key; else between quotes on one line, double quotes where
/// the text holds a line break, an apostrophe or a character that must be
/// escaped, and single quotes otherwise.
pub open spec fn segment_style(text: Seq<char>) -> Option<Quoted<Seq<char>>> {
    let flags = Flags::of(text);
    if !flags.is_quoted {
        None
    } else if flags.has_lf_or_cr || flags.has_escape || flags.has_apostrophe {
        Some(Quoted::SingleLine(Quotes::Double(text)))
    } else {
        Some(Quoted::SingleLine(Quotes::Single(text)))
    }
}

/// A segment of text `text` as it stands in a key.
pub open spec fn segment_text(text: Seq<char>) -> Seq<char> {
    match segment_style(text) {
        None => text,
        Some(quoted) => quoted_text(quoted),
    }
}

impl Segment {
    /// The text of the segment, without quotes and escapes.
    pub open spec fn spec_text(self) -> Seq<char> {
        match self {
            Segment::Unquoted(text) => text@,
            Segment::Quoted(quoted) => quoted.spec_inner()@,
        }
    }

    /// How the segment is quoted; `None` for a bare segment.
    pub open spec fn style(self) -> Option<Quoted<Seq<char>>> {
        match self {
            Segment::Unquoted(_) => None,
            Segment::Quoted(quoted) => Some(quoted@),
        }
    }

    /// The segment as it stands in a key: its text, or its literal.
    pub open spec fn rendered(self) -> Seq<char> {
        match self {
            Segment::Unquoted(text) => text@,
            Segment::Quoted(quoted) => quoted_text(quoted@),
        }
    }

    /// What stands between the quotes: the escape of the text between double
    /// quotes, the text itself otherwise.
    pub open spec fn body(self) -> Seq<char> {
        match self {
            Segment::Unquoted(text) => text@,
            Segment::Quoted(quoted) => match quoted.spec_quotes() {
                Quotes::Single(text) => text@,
                Quotes::Double(text) => escape_text(text@, quoted.spec_mode()),
            },
        }
    }

    /// The segment of text `input`, quoted as the text requires.
    pub fn new(input: &str) -> (segment: Segment)
        ensures
            segment.spec_text() == input@,
            segment.style() == segment_style(input@),
            segment.rendered() == segment_text(input@),
    {
        let flags = Flags::parse(input);
        let text = input.to_owned();
        if flags.is_quoted {
            if flags.has_lf_or_cr || flags.has_escape || flags.has_apostrophe {
                Segment::Quoted(Quoted::SingleLine(Quotes::Double(text)))
            } else {
                Segment::Quoted(Quoted::SingleLine(Quotes::Single(text)))
            }
        } else {
            Segment::Unquoted(text)
        }
    }

    /// What stands between the quotes.
    pub fn escape(&self) -> (body: String)
        ensures
            body@ == self.body(),
    {
        match self {
            Segment::Unquoted(text) => text.clone(),
            Segment::Quoted(quoted) => match quoted.quotes() {
                Quotes::Single(text) => text.clone(),
                Quotes::Double(text) => escape(text.as_str(), quoted.mode()),
            },
        }
    }

    /// The text of the segment, without quotes and escapes.
    pub fn text(&self) -> (text: &str)
        ensures
            text@ == self.spec_text(),
    {
        match self {
            Segment::Unquoted(text) => text.as_str(),
            Segment::Quoted(quoted) => quoted.inner().as_str(),
        }
    }

    /// Gives up the segment for its text.
    pub fn into_inner(self) -> (text: String)
        ensures
            text@ == self.spec_text(),
    {
        match self {
            Segment::Unquoted(text) => text,
            Segment::Quoted(quoted) => quoted.into_inner(),
        }
    }

    /// The segment as it stands in a key.
    pub fn to_string(&self) -> (text: String)
        ensures
            text@ == self.rendered(),
    {
        match self {
            Segment::Unquoted(text) => text.clone(),
            Segment::Quoted(quoted) => quoted.to_string(),
        }
    }
}

impl PartialEq for Segment {
    /// Two segments are equal where their texts are, however they are
    /// quoted.
    fn eq(&self, other: &Segment) -> (equal: bool) {
        let a = self.text();
        let b = other.text();
        str_eq(a, b)
    }
}

impl vstd::std_specs::cmp::PartialEqSpecImpl for Segment {
    open spec fn obeys_eq_spec() -> bool {
        true
    }

    open spec fn eq_spec(&self, other: &Segment) -> bool {
        self.spec_text() == other.spec_text()
    }
}

impl Eq for Segment {

}

impl std::hash::Hash for Segment {
    /// `str::hash` feeds the text of the segment to the hasher.
    #[verifier::external_body]
    fn hash<H: std::hash::Hasher>(&self, state: &mut H) {
        self.text().hash(state)
    }
}

/// A dotted key: its segments, the outermost first.
#[derive(Clone, Debug, Hash, PartialEq, Eq)]
pub struct Key(pub Vec<Segment>);

/// Segments as they stand in a key, with a dot between every two.
pub open spec fn dotted(segments: Seq<Seq<char>>) -> Seq<char>
    decreases segments.len(),
{
    if segments.len() == 0 {
        Seq::empty()
    } else if segments.len() == 1 {
        segments[0]
    } else {
        dotted(segments.drop_last()) + seq!['.'] + segments.last()
    }
}

/// The key whose segments have the texts `texts`, as it stands in a header.
pub open spec fn path_text(texts: Seq<Seq<char>>) -> Seq<char> {
    dotted(texts.map_values(|text: Seq<char>| segment_text(text)))
}

impl Key {
    /// The texts of the segments, the outermost first.
    pub open spec fn texts(self) -> Seq<Seq<char>> {
        self.0@.map_values(|segment: Segment| segment.spec_text())
    }

    /// The key as it stands in the text: its segments, each as it is quoted,
    /// with a dot between every two.
    pub open spec fn rendered(self) -> Seq<char> {
        dotted(self.0@.map_values(|segment: Segment| segment.rendered()))
    }

    /// The key without segments, which names the document itself.
    pub fn new() -> (key: Key)
        ensures
            key.0@ == Seq::<Segment>::empty(),
    {
        Key(Vec::new())
    }

    /// The key of one segment.
    pub fn from_segment(segment: Segment) -> (key: Key)
        ensures
            key.0@ == seq![segment],
    {
        let mut segments = Vec::new();
        segments.push(segment);
        Key(segments)
    }

    /// The key of the given segments.
    pub fn from_segments(segments: Vec<Segment>) -> (key: Key)
        ensures
            key.0 == segments,
    {
        Key(segments)
    }

    /// The key whose segments have the given texts, each quoted as its text
    /// requires.
    pub fn from_texts(texts: &Vec<&str>) -> (key: Key)
        ensures
            key.texts() == crate::comment::strs_view(texts@),
            key.rendered() == path_text(crate::comment::strs_view(texts@)),
    {
        let mut segments: Vec<Segment> = Vec::new();
        let mut i: usize = 0;
        while i < texts.len()
            invariant
                i <= texts@.len(),
                segments@.len() == i,
                forall|j: int|
                    0 <= j < i ==> (#[trigger] segments@[j]).spec_text() == texts@[j]@
                        && segments@[j].rendered() == segment_text(texts@[j]@),
            decreases texts@.len() - i,
        {
            segments.push(Segment::new(texts[i]));
            i += 1;
        }
        let key = Key(segments);
        proof {
            let views = crate::comment::strs_view(texts@);
            assert(key.texts() == views);
            assert(key.0@.map_values(|segment: Segment| segment.rendered()) == views.map_values(
                |text: Seq<char>| segment_text(text),
            ));
        }
        key
    }

    /// How many segments the key has.
    pub fn len(&self) -> (n: usize)
        ensures
            n == self.0@.len(),
    {
        self.0.len()
    }

    /// Has the key no segment?
    pub fn is_empty(&self) -> (empty: bool)
        ensures
            empty == (self.0@.len() == 0),
    {
        self.0.len() == 0
    }

    /// Adds a segment behind the others.
    pub fn push(&mut self, segment: Segment)
        ensures
            final(self).0@ == old(self).0@.push(segment),
    {
        self.0.push(segment);
    }

    /// Takes the innermost segment off the key.
    pub fn pop(&mut self) -> (segment: Option<Segment>)
        ensures
            old(self).0@.len() == 0 ==> segment is None && final(self).0@ == old(self).0@,
            old(self).0@.len() > 0 ==> segment == Some(old(self).0@.last()) && final(self).0@
                == old(self).0@.drop_last(),
    {
        self.0.pop()
    }

    /// The key as it stands in the text.
    pub fn to_string(&self) -> (text: String)
        ensures
            text@ == self.rendered(),
    {
        let ghost parts = self.0@.map_values(|segment: Segment| segment.rendered());
        let mut text = String::new();
        let mut i: usize = 0;
        while i < self.0.len()
            invariant
                i <= self.0@.len(),
                parts == self.0@.map_values(|segment: Segment| segment.rendered()),
                text@ == dotted(parts.take(i as int)),
            decreases self.0@.len() - i,
        {
            proof {
                let after = parts.take(i + 1);
                assert(after.drop_last() == parts.take(i as int));
                assert(after.last() == self.0@[i as int].rendered());
            }
            if i > 0 {
                text.push('.');
            }
            let part = self.0[i].to_string();
            push_text(&mut text, part.as_str());
            i += 1;
        }
        proof {
            assert(parts.take(parts.len() as int) == parts);
        }
        text
    }
}

} // verus!
