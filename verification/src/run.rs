//! A whole run: from the settings and the sources to the lines written.

use crate::header::{header_of, split_header};
use crate::outcome::{Failure, Outcome, Report, EMPTY_HEADER, MISSING_INPUT};
use crate::projection::{projection, requested, resolvable, resolve_columns, OutputColumn};
use crate::stream::{stream, stream_rows_from, StreamState};
use vstd::prelude::*;

verus! {

/// The settings of a run.
#[derive(Clone, Debug)]
pub struct Opt {
    /// The file whose first line is the header. Without one the header is
    /// the first line of the main input.
    pub header_file: Option<String>,
    /// The file that is the main input. Without one it is standard input.
    pub input_file: Option<String>,
    /// The names of the columns to write, separated by commas. Without a
    /// list every row is written as it is.
    pub output_columns: Option<String>,
    /// Write the names of the header, each on a line of its own, and stop.
    pub list_header: bool,
}

/// What an `Opt` stands for.
pub struct Settings {
    pub header_file: Option<Seq<char>>,
    pub input_file: Option<Seq<char>>,
    pub output_columns: Option<Seq<char>>,
    pub list_header: bool,
}

impl DeepView for Opt {
    type V = Settings;

    open spec fn deep_view(&self) -> Settings {
        Settings {
            header_file: self.header_file.deep_view(),
            input_file: self.input_file.deep_view(),
            output_columns: self.output_columns.deep_view(),
            list_header: self.list_header,
        }
    }
}

/// The header and the projection of a run that goes on to the rows.
#[derive(Debug)]
pub struct Plan {
    pub header: Vec<String>,
    pub columns: Vec<OutputColumn>,
}

/// How a run stands once its header line is read: over, with what it
/// wrote, or ready for the rows.
#[derive(Debug)]
pub enum Prepared {
    Done(Outcome),
    Ready(Plan),
}

impl Settings {
    /// No input can be had: no file is named, and standard input is a
    /// terminal with nothing piped in.
    pub open spec fn lacks_input(self, stdin_is_terminal: bool) -> bool {
        self.input_file is None && stdin_is_terminal
    }

    /// The line that the header is resolved from: the first line of the
    /// header file where one is set, else the first line of the main input.
    /// A source without lines gives the empty line. The line is taken as it
    /// is.
    pub open spec fn header_line(self, header_source: Seq<char>, input: Seq<Seq<char>>) -> Seq<
        char,
    > {
        if self.header_file is Some {
            header_source
        } else if input.len() > 0 {
            input[0]
        } else {
            Seq::empty()
        }
    }

    /// The lines of the main input that are rows: all of them where a
    /// header file is set, else all but the first.
    pub open spec fn rows(self, input: Seq<Seq<char>>) -> Seq<Seq<char>> {
        if self.header_file is Some || input.len() == 0 {
            input
        } else {
            input.skip(1)
        }
    }

    /// What a run writes before it reaches the rows, where it ends there:
    /// a diagnostic where the header has no names; the names of the header
    /// where they are asked for; nothing where a requested column is not
    /// in the header. Otherwise the run goes on to the rows.
    pub open spec fn preamble(self, header: Seq<Seq<char>>) -> Option<Report> {
        if header.len() == 0 {
            Some(Report::failed(seq![EMPTY_HEADER@], Failure::EmptyHeader))
        } else if self.list_header {
            Some(Report::written(header))
        } else if !resolvable(header, requested(self.output_columns)) {
            Some(Report::failed(Seq::empty(), Failure::UnknownColumn))
        } else {
            None
        }
    }

    /// What a run writes. `header_source` is the first line of the header
    /// file and counts only where one is set; `input` holds the lines of
    /// the main input. All lines are given without their line ends.
    pub open spec fn run(
        self,
        stdin_is_terminal: bool,
        header_source: Seq<char>,
        input: Seq<Seq<char>>,
    ) -> Report {
        if self.lacks_input(stdin_is_terminal) {
            Report::failed(seq![MISSING_INPUT@], Failure::MissingInput)
        } else {
            let header = header_of(self.header_line(header_source, input));
            match self.preamble(header) {
                Some(report) => report,
                None => {
                    stream(
                        StreamState::start(),
                        header,
                        projection(header, requested(self.output_columns)),
                        self.rows(input),
                    )
                },
            }
        }
    }
}

/// Asks `atty::is` whether standard input is a terminal. The answer depends
/// on how the process was started, so nothing is claimed of it.
#[verifier::external_body]
fn stdin_is_terminal() -> bool {
    atty::is(atty::Stream::Stdin)
}

impl Opt {
    /// Tells whether no input can be had, given whether standard input is
    /// a terminal.
    pub fn lacks_input(&self, stdin_is_terminal: bool) -> (r: bool)
        ensures
            r == self.deep_view().lacks_input(stdin_is_terminal),
    {
        self.input_file.is_none() && stdin_is_terminal
    }

    /// Tells whether the run has to be refused for want of input. Standard
    /// input is looked at only where no input file is named, and the run
    /// is refused exactly if it is then found to be a terminal.
    pub fn refuses(&self) -> (r: bool)
        ensures
            self.input_file is Some ==> !r,
    {
        if self.input_file.is_some() {
            false
        } else {
            let terminal = stdin_is_terminal();
            self.lacks_input(terminal)
        }
    }

    /// Takes the header of the run and resolves the projection from the
    /// settings, and tells whether the run is over or goes on to the rows.
    /// The run is over, with a diagnostic, where the header is empty; with
    /// the names of the header written, where they are asked for; and with
    /// nothing written, where a requested column is not in the header.
    pub fn prepare(&self, header: Vec<String>) -> (r: Prepared)
        ensures
            match self.deep_view().preamble(header.deep_view()) {
                Some(report) => r matches Prepared::Done(out) && out.deep_view() == report,
                None => r matches Prepared::Ready(plan) && plan.header.deep_view()
                    == header.deep_view() && plan.columns.deep_view() == projection(
                    header.deep_view(),
                    requested(self.output_columns.deep_view()),
                ),
            },
    {
        if header.len() == 0 {
            let mut lines: Vec<String> = Vec::new();
            lines.push(EMPTY_HEADER.to_owned());
            assert(lines.deep_view() == seq![EMPTY_HEADER@]);
            return Prepared::Done(Outcome::failed(lines, Failure::EmptyHeader));
        }
        if self.list_header {
            return Prepared::Done(Outcome::written(header));
        }
        match resolve_columns(&header, &self.output_columns) {
            Some(columns) => Prepared::Ready(Plan { header, columns }),
            None => {
                let lines: Vec<String> = Vec::new();
                assert(lines.deep_view() == Seq::<Seq<char>>::empty());
                Prepared::Done(Outcome::failed(lines, Failure::UnknownColumn))
            },
        }
    }

    /// Runs on sources held in memory. `header_source` is the first line
    /// of the header file and counts only where one is set; `input` holds
    /// the lines of the main input. All lines are given without their line
    /// ends, and the header line is used as it is.
    pub fn run(&self, stdin_is_terminal: bool, header_source: &str, input: &Vec<String>) -> (out:
        Outcome)
        ensures
            out.deep_view() == self.deep_view().run(
                stdin_is_terminal,
                header_source@,
                input.deep_view(),
            ),
    {
        if self.lacks_input(stdin_is_terminal) {
            let mut lines: Vec<String> = Vec::new();
            lines.push(MISSING_INPUT.to_owned());
            assert(lines.deep_view() == seq![MISSING_INPUT@]);
            return Outcome::failed(lines, Failure::MissingInput);
        }
        let header = if self.header_file.is_some() {
            split_header(header_source)
        } else if input.len() > 0 {
            split_header(input[0].as_str())
        } else {
            split_header(String::new().as_str())
        };
        let prepared = self.prepare(header);
        let from: usize = if self.header_file.is_some() || input.len() == 0 {
            0
        } else {
            1
        };
        assert(input.deep_view().skip(0) == input.deep_view());
        match prepared {
            Prepared::Done(out) => out,
            Prepared::Ready(plan) => stream_rows_from(&plan.header, &plan.columns, input, from),
        }
    }
}

} // verus!
