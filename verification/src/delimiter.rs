//! The field delimiter and how it is inferred from a line.

use crate::text::contains_char;
use vstd::prelude::*;

verus! {

/// The character that separates the fields of a line.
#[derive(Clone, Copy, Debug, PartialEq, Eq, Structural)]
pub enum Delimiter {
    Comma,
    Tab,
}

impl Delimiter {
    /// The delimiter as a character.
    pub open spec fn ch(self) -> char {
        match self {
            Delimiter::Comma => ',',
            Delimiter::Tab => '\t',
        }
    }

    /// The delimiter as a character.
    pub fn as_char(self) -> (c: char)
        ensures
            c == self.ch(),
    {
        match self {
            Delimiter::Comma => ',',
            Delimiter::Tab => '\t',
        }
    }

    /// The delimiter as a string of one character.
    pub fn as_string(self) -> (s: String)
        ensures
            s@ == seq![self.ch()],
    {
        let mut s = String::new();
        s.push(self.as_char());
        s
    }
}

/// The delimiter of a line: a comma if the line holds one, else a tab if it
/// holds one, else none. A line with both is comma-separated.
pub open spec fn inferred(line: Seq<char>) -> Option<Delimiter> {
    if line.contains(',') {
        Some(Delimiter::Comma)
    } else if line.contains('\t') {
        Some(Delimiter::Tab)
    } else {
        None
    }
}

/// Infers the delimiter of `line`.
pub fn infer_delimiter(line: &str) -> (r: Option<Delimiter>)
    ensures
        r == inferred(line@),
{
    if contains_char(line, ',') {
        Some(Delimiter::Comma)
    } else if contains_char(line, '\t') {
        Some(Delimiter::Tab)
    } else {
        None
    }
}

/// Infers the delimiter of `line` and gives it as a string: `","`, `"\t"`,
/// or nothing where the line holds neither.
pub fn infer_splitor(line: &str) -> (r: Option<String>)
    ensures
        match inferred(line@) {
            Some(d) => r is Some && r->0@ == seq![d.ch()],
            None => r is None,
        },
{
    match infer_delimiter(line) {
        Some(d) => Some(d.as_string()),
        None => None,
    }
}

} // verus!
