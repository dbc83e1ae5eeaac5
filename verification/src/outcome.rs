//! What a run, or a step of it, writes, and why it stopped.

use vstd::prelude::*;

verus! {

/// Why a run stops before its input is used up.
#[derive(Clone, Copy, Debug, PartialEq, Eq, Structural)]
pub enum Failure {
    /// No input file was named and standard input is a terminal.
    MissingInput,
    /// The header line holds neither a comma nor a tab.
    EmptyHeader,
    /// A requested column does not stand in the header.
    UnknownColumn,
    /// No delimiter is set and the line holds neither a comma nor a tab.
    NoDelimiter,
    /// A row has no field at the position of a requested column.
    ShortRow,
}

/// The lines to write, in order, and the failure that ended the work, if
/// one did. Diagnostics go to the same place as the data and are among the
/// lines.
#[derive(Debug)]
pub struct Outcome {
    pub lines: Vec<String>,
    pub failure: Option<Failure>,
}

/// What an `Outcome` stands for.
pub struct Report {
    pub lines: Seq<Seq<char>>,
    pub failure: Option<Failure>,
}

impl DeepView for Outcome {
    type V = Report;

    open spec fn deep_view(&self) -> Report {
        Report { lines: self.lines.deep_view(), failure: self.failure }
    }
}

/// The line written where no input can be had.
pub const MISSING_INPUT: &'static str = "missing input file or input stream";

/// The line written where the header cannot be resolved.
pub const EMPTY_HEADER: &'static str = "cannot infer the csv header";

/// The line written where a line gives no delimiter and none is set.
pub const NO_DELIMITER: &'static str = "error: cannot infer a proper splitor";

/// The diagnostic for a header that cannot be resolved holds neither a
/// comma nor a tab.
pub proof fn lemma_empty_header_line_has_no_delimiter()
    ensures
        !EMPTY_HEADER@.contains(','),
        !EMPTY_HEADER@.contains('\t'),
{
    reveal_strlit("cannot infer the csv header");
    let s = EMPTY_HEADER@;
}

impl Report {
    /// Nothing written, no failure.
    pub open spec fn nothing() -> Report {
        Report { lines: Seq::empty(), failure: None }
    }

    /// These lines written, no failure.
    pub open spec fn written(lines: Seq<Seq<char>>) -> Report {
        Report { lines, failure: None }
    }

    /// These lines written, then the failure.
    pub open spec fn failed(lines: Seq<Seq<char>>, failure: Failure) -> Report {
        Report { lines, failure: Some(failure) }
    }

    /// The lines of `self`, then what `rest` reports.
    pub open spec fn followed_by(self, rest: Report) -> Report {
        Report { lines: self.lines + rest.lines, failure: rest.failure }
    }
}

impl Outcome {
    /// These lines written, no failure.
    pub fn written(lines: Vec<String>) -> (r: Outcome)
        ensures
            r.deep_view() == Report::written(lines.deep_view()),
    {
        Outcome { lines, failure: None }
    }

    /// These lines written, then the failure.
    pub fn failed(lines: Vec<String>, failure: Failure) -> (r: Outcome)
        ensures
            r.deep_view() == Report::failed(lines.deep_view(), failure),
    {
        Outcome { lines, failure: Some(failure) }
    }
}

impl Failure {
    /// The diagnostic line that goes with the failure, for those that have
    /// one.
    pub open spec fn diagnostic(self) -> Option<Seq<char>> {
        match self {
            Failure::MissingInput => Some(MISSING_INPUT@),
            Failure::EmptyHeader => Some(EMPTY_HEADER@),
            Failure::NoDelimiter => Some(NO_DELIMITER@),
            Failure::UnknownColumn => None,
            Failure::ShortRow => None,
        }
    }

    /// The diagnostic line that goes with the failure, for those that have
    /// one.
    pub fn message(self) -> (r: Option<String>)
        ensures
            match self.diagnostic() {
                Some(text) => r is Some && r->0@ == text,
                None => r is None,
            },
    {
        match self {
            Failure::MissingInput => Some(MISSING_INPUT.to_owned()),
            Failure::EmptyHeader => Some(EMPTY_HEADER.to_owned()),
            Failure::NoDelimiter => Some(NO_DELIMITER.to_owned()),
            Failure::UnknownColumn => None,
            Failure::ShortRow => None,
        }
    }
}

} // verus!
