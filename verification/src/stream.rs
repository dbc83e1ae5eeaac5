//! The row loop: one line in, the lines to write out.
//!
//! The delimiter of the rows is inferred from the first line that arrives,
//! and the header line is written once, just before the first row.

use crate::delimiter::{infer_delimiter, inferred, Delimiter};
use crate::outcome::{Failure, Outcome, Report, NO_DELIMITER};
use crate::projection::{fits, names_of, project_row, projected, Column, OutputColumn};
use crate::text::{
    join, join_fields, lemma_split_fields, lemma_split_join, split, split_line, trim_end,
    trim_right,
};
use vstd::prelude::*;

verus! {

/// Where the row loop stands: whether the delimiter is set, and whether the
/// header line is still to be written.
#[derive(Clone, Copy, Debug)]
pub struct StreamState {
    pub delimiter: Option<Delimiter>,
    pub awaiting_first_row: bool,
}

/// What one line does: the state after it, and what it writes.
pub struct Step {
    pub next: StreamState,
    pub report: Report,
}

/// The header line: the names of the projection, or the whole header where
/// the projection is empty, joined by the delimiter of the rows.
pub open spec fn header_row(header: Seq<Seq<char>>, columns: Seq<Column>, d: Delimiter) -> Seq<
    char,
> {
    if columns.len() == 0 {
        join(header, d.ch())
    } else {
        join(names_of(columns), d.ch())
    }
}

/// What a row is written as, once it is known to be long enough: the line
/// itself where the projection is empty; else the line is trimmed at the
/// end and split, and the fields at the projection's positions are joined.
pub open spec fn content_row(line: Seq<char>, columns: Seq<Column>, d: Delimiter) -> Seq<char> {
    if columns.len() == 0 {
        line
    } else {
        join(projected(split(trim_end(line), d.ch()), columns), d.ch())
    }
}

/// A row is long enough if it has a field at every position of the
/// projection.
pub open spec fn long_enough(line: Seq<char>, columns: Seq<Column>, d: Delimiter) -> bool {
    columns.len() == 0 || fits(columns, split(trim_end(line), d.ch()).len())
}

/// One step of the row loop.
///
/// While no delimiter is set, the line's own delimiter is inferred and
/// becomes the delimiter of all rows. A line that gives none, while none
/// is set, writes a diagnostic and fails, and the state stays as it was.
/// Otherwise the header line is written if it has not been, and then the
/// row; a row that is too short for the projection fails after the header
/// line.
pub open spec fn step(
    state: StreamState,
    header: Seq<Seq<char>>,
    columns: Seq<Column>,
    line: Seq<char>,
) -> Step {
    let delimiter = if state.delimiter is None {
        inferred(line)
    } else {
        state.delimiter
    };
    match delimiter {
        None => Step {
            next: state,
            report: Report::failed(seq![NO_DELIMITER@], Failure::NoDelimiter),
        },
        Some(d) => {
            let next = StreamState { delimiter: Some(d), awaiting_first_row: false };
            let head = if state.awaiting_first_row {
                seq![header_row(header, columns, d)]
            } else {
                Seq::empty()
            };
            if long_enough(line, columns, d) {
                Step { next, report: Report::written(head.push(content_row(line, columns, d))) }
            } else {
                Step { next, report: Report::failed(head, Failure::ShortRow) }
            }
        },
    }
}

/// The row loop over `rows`, from `state` on: the steps' lines one after
/// the other, up to and with the first step that fails.
pub open spec fn stream(
    state: StreamState,
    header: Seq<Seq<char>>,
    columns: Seq<Column>,
    rows: Seq<Seq<char>>,
) -> Report
    decreases rows.len(),
{
    if rows.len() == 0 {
        Report::nothing()
    } else {
        let first = step(state, header, columns, rows[0]);
        if first.report.failure is Some {
            first.report
        } else {
            first.report.followed_by(stream(first.next, header, columns, rows.drop_first()))
        }
    }
}

/// What the first `count` rows are written as.
pub open spec fn content_rows(
    rows: Seq<Seq<char>>,
    columns: Seq<Column>,
    d: Delimiter,
    count: nat,
) -> Seq<Seq<char>> {
    Seq::new(count, |i: int| content_row(rows[i], columns, d))
}

/// `count` is the number of rows before the first that is too short, or the
/// number of rows where none is.
pub open spec fn rows_before_short(
    rows: Seq<Seq<char>>,
    columns: Seq<Column>,
    d: Delimiter,
    count: nat,
) -> bool {
    &&& count <= rows.len()
    &&& forall|i: int| 0 <= i < count ==> long_enough(#[trigger] rows[i], columns, d)
    &&& count < rows.len() ==> !long_enough(rows[count as int], columns, d)
}

/// A delimiter that is set stays as it is, whatever the line. A step that
/// does not fail for want of a delimiter leaves one set and the header
/// line written, and it writes the header line exactly if that was still
/// to be done.
pub proof fn lemma_step_state(
    state: StreamState,
    header: Seq<Seq<char>>,
    columns: Seq<Column>,
    line: Seq<char>,
)
    ensures
        ({
            let after = step(state, header, columns, line);
            &&& state.delimiter is Some ==> after.next.delimiter == state.delimiter
            &&& after.report.failure == Some(Failure::NoDelimiter) <==> state.delimiter is None
                && inferred(line) is None
            &&& after.report.failure == Some(Failure::NoDelimiter) ==> after.next == state
            &&& after.report.failure != Some(Failure::NoDelimiter) ==> {
                &&& after.next.delimiter is Some
                &&& !after.next.awaiting_first_row
                &&& state.awaiting_first_row ==> after.report.lines.len() >= 1
                    && after.report.lines[0] == header_row(
                    header,
                    columns,
                    after.next.delimiter->0,
                )
                &&& after.report.lines.len() == (if state.awaiting_first_row {
                    1nat
                } else {
                    0nat
                }) + (if after.report.failure is None {
                    1nat
                } else {
                    0nat
                })
            }
        }),
{
}

/// A row that is written under a projection has as many fields as the
/// projection has columns, and they are the fields of the line at the
/// projection's positions, in the projection's order.
pub proof fn lemma_projected_row(line: Seq<char>, columns: Seq<Column>, d: Delimiter)
    requires
        columns.len() > 0,
        long_enough(line, columns, d),
    ensures
        split(content_row(line, columns, d), d.ch()) == projected(
            split(trim_end(line), d.ch()),
            columns,
        ),
        split(content_row(line, columns, d), d.ch()).len() == columns.len(),
{
    lemma_split_fields(trim_end(line), d.ch());
    lemma_split_join(projected(split(trim_end(line), d.ch()), columns), d.ch());
}

/// Once the delimiter is set and the header line written, the loop writes
/// each row in turn up to the first that is too short.
proof fn lemma_stream_streaming(
    header: Seq<Seq<char>>,
    columns: Seq<Column>,
    rows: Seq<Seq<char>>,
    d: Delimiter,
    count: nat,
)
    requires
        rows_before_short(rows, columns, d, count),
    ensures
        stream(
            StreamState { delimiter: Some(d), awaiting_first_row: false },
            header,
            columns,
            rows,
        ) == (Report {
            lines: content_rows(rows, columns, d, count),
            failure: if count < rows.len() {
                Some(Failure::ShortRow)
            } else {
                None
            },
        }),
    decreases rows.len(),
{
    let state = StreamState { delimiter: Some(d), awaiting_first_row: false };
    if count > 0 {
        lemma_stream_streaming(header, columns, rows.drop_first(), d, (count - 1) as nat);
    }
    assert(stream(state, header, columns, rows).lines == content_rows(rows, columns, d, count));
}

/// What the row loop writes, from the start. Without rows it writes
/// nothing, not even the header line. Where the first row gives no
/// delimiter it writes the diagnostic and fails. Otherwise it writes the
/// header line once, in front, joined by the delimiter of the first row,
/// and then each row in turn, all with that delimiter, up to the first row
/// that is too short for the projection, where it fails.
pub proof fn lemma_stream_from_start(
    header: Seq<Seq<char>>,
    columns: Seq<Column>,
    rows: Seq<Seq<char>>,
    count: nat,
)
    requires
        rows.len() > 0 && inferred(rows[0]) is Some ==> rows_before_short(
            rows,
            columns,
            inferred(rows[0])->0,
            count,
        ),
    ensures
        stream(StreamState::start(), header, columns, rows) == (if rows.len() == 0 {
            Report::nothing()
        } else {
            match inferred(rows[0]) {
                None => Report::failed(seq![NO_DELIMITER@], Failure::NoDelimiter),
                Some(d) => Report {
                    lines: seq![header_row(header, columns, d)] + content_rows(
                        rows,
                        columns,
                        d,
                        count,
                    ),
                    failure: if count < rows.len() {
                        Some(Failure::ShortRow)
                    } else {
                        None
                    },
                },
            }
        }),
{
    if rows.len() > 0 && inferred(rows[0]) is Some && count > 0 {
        let d = inferred(rows[0])->0;
        lemma_stream_streaming(header, columns, rows.drop_first(), d, (count - 1) as nat);
        assert(stream(StreamState::start(), header, columns, rows).lines == seq![
            header_row(header, columns, d),
        ] + content_rows(rows, columns, d, count));
    }
}

/// Without a projection no row is too short and every row is written as
/// it is: the loop writes the header line and then the rows unchanged.
pub proof fn lemma_stream_pass_through(header: Seq<Seq<char>>, rows: Seq<Seq<char>>)
    ensures
        stream(StreamState::start(), header, Seq::empty(), rows) == (if rows.len() == 0 {
            Report::nothing()
        } else {
            match inferred(rows[0]) {
                None => Report::failed(seq![NO_DELIMITER@], Failure::NoDelimiter),
                Some(d) => Report::written(seq![join(header, d.ch())] + rows),
            }
        }),
{
    lemma_stream_from_start(header, Seq::empty(), rows, rows.len());
    if rows.len() > 0 && inferred(rows[0]) is Some {
        let d = inferred(rows[0])->0;
        assert(content_rows(rows, Seq::empty(), d, rows.len()) == rows);
    }
}

/// The names of the columns, in order.
pub fn column_names(columns: &Vec<OutputColumn>) -> (names: Vec<String>)
    ensures
        names.deep_view() == names_of(columns.deep_view()),
{
    let mut names: Vec<String> = Vec::new();
    let mut i: usize = 0;
    while i < columns.len()
        invariant
            i <= columns.len(),
            names.deep_view() == names_of(columns.deep_view().take(i as int)),
        decreases columns.len() - i,
    {
        let ghost before = names.deep_view();
        names.push(columns[i].name.clone());
        assert(names.deep_view() == before.push(columns[i as int].name@));
        i += 1;
    }
    names
}

impl StreamState {
    /// The state before the first line: no delimiter, header line not yet
    /// written.
    pub open spec fn start() -> StreamState {
        StreamState { delimiter: None, awaiting_first_row: true }
    }

    /// The state before the first line.
    pub fn new() -> (state: StreamState)
        ensures
            state == StreamState::start(),
    {
        StreamState { delimiter: None, awaiting_first_row: true }
    }

    /// Takes one line of the main input and gives the lines to write for
    /// it. Fails with `NoDelimiter` exactly if no delimiter is set and the
    /// line holds neither a comma nor a tab, and with `ShortRow` exactly if
    /// a delimiter is there and the row has no field at some position of a
    /// projection that is not empty.
    pub fn process_line(
        &mut self,
        header: &Vec<String>,
        columns: &Vec<OutputColumn>,
        line: &str,
    ) -> (out: Outcome)
        ensures
            out.deep_view() == step(
                *old(self),
                header.deep_view(),
                columns.deep_view(),
                line@,
            ).report,
            *final(self) == step(*old(self), header.deep_view(), columns.deep_view(), line@).next,
    {
        let mut lines: Vec<String> = Vec::new();
        assert(lines.deep_view() == Seq::<Seq<char>>::empty());
        if self.delimiter.is_none() {
            self.delimiter = infer_delimiter(line);
        }
        let d = match self.delimiter {
            Some(d) => d,
            None => {
                lines.push(NO_DELIMITER.to_owned());
                assert(lines.deep_view() == seq![NO_DELIMITER@]);
                return Outcome::failed(lines, Failure::NoDelimiter);
            },
        };
        if self.awaiting_first_row {
            let text = if columns.len() == 0 {
                join_fields(header, d.as_char())
            } else {
                let names = column_names(columns);
                join_fields(&names, d.as_char())
            };
            lines.push(text);
            assert(lines.deep_view() == seq![
                header_row(header.deep_view(), columns.deep_view(), d),
            ]);
            self.awaiting_first_row = false;
        }
        let ghost head = lines.deep_view();
        if columns.len() == 0 {
            lines.push(line.to_owned());
            assert(lines.deep_view() == head.push(line@));
            Outcome::written(lines)
        } else {
            let trimmed = trim_right(line);
            let fields = split_line(trimmed.as_str(), d.as_char());
            match project_row(&fields, columns) {
                Some(picked) => {
                    lines.push(join_fields(&picked, d.as_char()));
                    assert(lines.deep_view() == head.push(
                        content_row(line@, columns.deep_view(), d),
                    ));
                    Outcome::written(lines)
                },
                None => Outcome::failed(lines, Failure::ShortRow),
            }
        }
    }
}

/// Runs the row loop over `rows` from the start and stops at the first line
/// that fails.
pub fn stream_rows(header: &Vec<String>, columns: &Vec<OutputColumn>, rows: &Vec<String>) -> (out:
    Outcome)
    ensures
        out.deep_view() == stream(
            StreamState::start(),
            header.deep_view(),
            columns.deep_view(),
            rows.deep_view(),
        ),
{
    assert(rows.deep_view().skip(0) == rows.deep_view());
    stream_rows_from(header, columns, rows, 0)
}

/// Runs the row loop from the start over the lines of `input` from index
/// `from` on, and stops at the first line that fails.
pub(crate) fn stream_rows_from(
    header: &Vec<String>,
    columns: &Vec<OutputColumn>,
    input: &Vec<String>,
    from: usize,
) -> (out: Outcome)
    requires
        from <= input.len(),
    ensures
        out.deep_view() == stream(
            StreamState::start(),
            header.deep_view(),
            columns.deep_view(),
            input.deep_view().skip(from as int),
        ),
{
    let ghost rows = input.deep_view().skip(from as int);
    let mut state = StreamState::new();
    let mut lines: Vec<String> = Vec::new();
    let mut i: usize = from;
    while i < input.len()
        invariant
            from <= i <= input.len(),
            rows == input.deep_view().skip(from as int),
            stream(StreamState::start(), header.deep_view(), columns.deep_view(), rows)
                == Report::written(lines.deep_view()).followed_by(
                stream(
                    state,
                    header.deep_view(),
                    columns.deep_view(),
                    input.deep_view().skip(i as int),
                ),
            ),
        decreases input.len() - i,
    {
        let ghost rest = input.deep_view().skip(i as int);
        let ghost before = lines.deep_view();
        let ghost first = step(state, header.deep_view(), columns.deep_view(), rest[0]);
        assert(rest.drop_first() == input.deep_view().skip(i as int + 1));
        let mut out = state.process_line(header, columns, input[i].as_str());
        lines.append(&mut out.lines);
        assert(lines.deep_view() == before + first.report.lines);
        if out.failure.is_some() {
            return Outcome { lines, failure: out.failure };
        }
        let ghost later = stream(
            first.next,
            header.deep_view(),
            columns.deep_view(),
            rest.drop_first(),
        ).lines;
        assert((before + first.report.lines) + later == before + (first.report.lines + later));
        i += 1;
    }
    Outcome::written(lines)
}

} // verus!
