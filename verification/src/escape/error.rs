use super::Span;
use vstd::prelude::*;

verus! {

/// Why a literal could not be unescaped. Each error holds the bytes of the
/// input that are at fault.
#[derive(Clone, Copy, Debug, PartialEq, Eq, Structural)]
pub enum Error {
    /// A character stands unescaped that may only be written as an escape.
    EscapeOnlyChar(Span),
    /// The input ends before the digits of a unicode escape do.
    IncompleteUnicodeEscape(Span),
    /// A unicode escape holds a character that is no hexadecimal digit.
    InvalidCharInUnicodeEscape(Span),
    /// A backslash is followed by a character that starts no escape.
    InvalidEscape(Span),
    /// A backslash is the last character of the input.
    LoneSlash(Span),
    /// A unicode escape names a surrogate code point.
    SurrogateUnicodeEscape(Span),
    /// A unicode escape names a code point above U+10FFFF.
    OutOfRangeUnicodeEscape(Span),
}

impl Error {
    /// The bytes of the input that are at fault.
    pub open spec fn spec_span(self) -> Span {
        match self {
            Error::EscapeOnlyChar(span) => span,
            Error::IncompleteUnicodeEscape(span) => span,
            Error::InvalidCharInUnicodeEscape(span) => span,
            Error::InvalidEscape(span) => span,
            Error::LoneSlash(span) => span,
            Error::SurrogateUnicodeEscape(span) => span,
            Error::OutOfRangeUnicodeEscape(span) => span,
        }
    }

    /// The bytes of the input that are at fault.
    #[verifier::when_used_as_spec(spec_span)]
    pub fn span(self) -> (span: Span)
        ensures
            span == self.spec_span(),
    {
        match self {
            Error::EscapeOnlyChar(span) => span,
            Error::IncompleteUnicodeEscape(span) => span,
            Error::InvalidCharInUnicodeEscape(span) => span,
            Error::InvalidEscape(span) => span,
            Error::LoneSlash(span) => span,
            Error::SurrogateUnicodeEscape(span) => span,
            Error::OutOfRangeUnicodeEscape(span) => span,
        }
    }

    /// A short description of the error.
    pub fn message(self) -> (text: &'static str)
        ensures
            text@ == self.message_text(),
    {
        match self {
            Error::EscapeOnlyChar(_) => "escape only char",
            Error::IncompleteUnicodeEscape(_) => "incomplete unicode escape",
            Error::InvalidCharInUnicodeEscape(_) => "invalid char in unicode escape",
            Error::InvalidEscape(_) => "invalid escape",
            Error::LoneSlash(_) => "lone slash",
            Error::SurrogateUnicodeEscape(_) => "surrogate unicode escape",
            Error::OutOfRangeUnicodeEscape(_) => "out of range unicode escape",
        }
    }

    /// The description that [`Error::message`] returns.
    pub open spec fn message_text(self) -> Seq<char> {
        match self {
            Error::EscapeOnlyChar(_) => "escape only char"@,
            Error::IncompleteUnicodeEscape(_) => "incomplete unicode escape"@,
            Error::InvalidCharInUnicodeEscape(_) => "invalid char in unicode escape"@,
            Error::InvalidEscape(_) => "invalid escape"@,
            Error::LoneSlash(_) => "lone slash"@,
            Error::SurrogateUnicodeEscape(_) => "surrogate unicode escape"@,
            Error::OutOfRangeUnicodeEscape(_) => "out of range unicode escape"@,
        }
    }
}

} // verus!
