//! What holds of every run.

use crate::delimiter::inferred;
use crate::header::{header_of, lemma_first_name_is_not_the_line, lemma_header_names};
use crate::outcome::{
    lemma_empty_header_line_has_no_delimiter, Failure, Report, EMPTY_HEADER, NO_DELIMITER,
};
use crate::projection::{projection, requested, resolvable, Column};
use crate::run::Settings;
use crate::stream::{
    content_rows, header_row, lemma_stream_from_start, lemma_stream_pass_through,
    rows_before_short,
};
use crate::text::{join, lemma_join_split_replaces, replace};
use vstd::prelude::*;

verus! {

/// The inputs that pass-through writes back as they are: a header line
/// that holds a delimiter, and at least one row, the first of which gives
/// the same delimiter as the header line.
pub open spec fn reproducible(input: Seq<Seq<char>>) -> bool {
    &&& input.len() >= 2
    &&& inferred(input[0]) is Some
    &&& inferred(input[1]) == inferred(input[0])
}

/// The header line that pass-through writes: the header line of the input
/// with its own delimiter replaced by that of the first row, and nothing
/// else changed.
pub open spec fn header_line_written(input: Seq<Seq<char>>) -> Seq<char> {
    replace(input[0], inferred(input[0])->0.ch(), inferred(input[1])->0.ch())
}

/// What a run writes that reaches the rows: the header line once, in
/// front, and then each row in turn, up to the first row that is too short
/// for the projection, where the run fails. The header line and all rows
/// are written with the delimiter of the first row. Without rows nothing is
/// written, and a first row without a delimiter fails the run.
pub proof fn lemma_run_rows(
    settings: Settings,
    stdin_is_terminal: bool,
    header_source: Seq<char>,
    input: Seq<Seq<char>>,
    count: nat,
)
    requires
        !settings.lacks_input(stdin_is_terminal),
        settings.preamble(header_of(settings.header_line(header_source, input))) is None,
        ({
            let header = header_of(settings.header_line(header_source, input));
            let columns = projection(header, requested(settings.output_columns));
            let rows = settings.rows(input);
            rows.len() > 0 && inferred(rows[0]) is Some ==> rows_before_short(
                rows,
                columns,
                inferred(rows[0])->0,
                count,
            )
        }),
    ensures
        ({
            let header = header_of(settings.header_line(header_source, input));
            let columns = projection(header, requested(settings.output_columns));
            let rows = settings.rows(input);
            settings.run(stdin_is_terminal, header_source, input) == (if rows.len() == 0 {
                Report::nothing()
            } else {
                match inferred(rows[0]) {
                    None => Report::failed(seq![NO_DELIMITER@], Failure::NoDelimiter),
                    Some(d) => Report {
                        lines: seq![header_row(header, columns, d)] + content_rows(
                            rows,
                            columns,
                            d,
                            count,
                        ),
                        failure: if count < rows.len() {
                            Some(Failure::ShortRow)
                        } else {
                            None
                        },
                    },
                }
            })
        }),
{
    let header = header_of(settings.header_line(header_source, input));
    let columns = projection(header, requested(settings.output_columns));
    lemma_stream_from_start(header, columns, settings.rows(input), count);
}

/// What a run without a header file and without a column list writes: the
/// header line with its delimiter replaced by that of the first row, and
/// then the rows as they are. With only a header line it writes nothing.
pub proof fn lemma_run_pass_through(
    settings: Settings,
    stdin_is_terminal: bool,
    header_source: Seq<char>,
    input: Seq<Seq<char>>,
)
    requires
        settings.output_columns is None,
        settings.header_file is None,
        !settings.list_header,
        !settings.lacks_input(stdin_is_terminal),
    ensures
        settings.run(stdin_is_terminal, header_source, input) == (if input.len() == 0 || inferred(
            input[0],
        ) is None {
            Report::failed(seq![EMPTY_HEADER@], Failure::EmptyHeader)
        } else if input.len() == 1 {
            Report::nothing()
        } else {
            match inferred(input[1]) {
                None => Report::failed(seq![NO_DELIMITER@], Failure::NoDelimiter),
                Some(_) => Report::written(seq![header_line_written(input)] + input.skip(1)),
            }
        }),
{
    let line = settings.header_line(header_source, input);
    let header = header_of(line);
    lemma_header_names(line);
    if header.len() > 0 {
        assert(projection(header, requested(settings.output_columns)) == Seq::<Column>::empty());
        lemma_stream_pass_through(header, settings.rows(input));
        if input.len() >= 2 && inferred(input[1]) is Some {
            lemma_join_split_replaces(line, inferred(line)->0.ch(), inferred(input[1])->0.ch());
        }
    }
}

/// With no column list and no header file, the run writes its input back,
/// header line and all, exactly on the inputs that are `reproducible`, and
/// then without failure. It does so on no other input: not where only the
/// names of the header are asked for, nor where the header line holds no
/// delimiter, nor where no row follows the header line, nor where the first
/// row gives another delimiter than the header line.
pub proof fn lemma_pass_through_reproduces_input(
    settings: Settings,
    stdin_is_terminal: bool,
    header_source: Seq<char>,
    input: Seq<Seq<char>>,
)
    requires
        settings.output_columns is None,
        settings.header_file is None,
    ensures
        settings.run(stdin_is_terminal, header_source, input) == Report::written(input) <==> {
            &&& !settings.lacks_input(stdin_is_terminal)
            &&& !settings.list_header
            &&& reproducible(input)
        },
{
    let line = settings.header_line(header_source, input);
    lemma_header_names(line);
    if settings.lacks_input(stdin_is_terminal) || header_of(line).len() == 0 {
        // The run fails.
    } else if settings.list_header {
        // The first line written is a name, the first line read holds a delimiter.
        lemma_first_name_is_not_the_line(line);
    } else {
        lemma_run_pass_through(settings, stdin_is_terminal, header_source, input);
        if reproducible(input) {
            assert(header_line_written(input) == input[0]);
            assert(seq![input[0]] + input.skip(1) == input);
        } else if input.len() >= 2 && inferred(input[1]) is Some {
            // Where the header line held its delimiter, the line written
            // holds that of the first row.
            let j: int = choose|j: int| 0 <= j < line.len() && line[j] == inferred(line)->0.ch();
            assert(header_line_written(input)[j] == inferred(input[1])->0.ch());
        }
    }
}

/// The inputs on which a second pass-through changes nothing. Either the
/// first run ends with the diagnostic for want of input or of a header, or
/// it writes a header line and rows.
pub open spec fn settled(
    settings: Settings,
    stdin_is_terminal: bool,
    input: Seq<Seq<char>>,
) -> bool {
    ||| settings.lacks_input(stdin_is_terminal)
    ||| input.len() == 0
    ||| inferred(input[0]) is None
    ||| {
        &&& !settings.list_header
        &&& input.len() >= 2
        &&& inferred(input[1]) is Some
    }
}

/// The header line that pass-through writes holds the delimiter of the
/// first row and gives that delimiter when read again. Where the header
/// line and the first row give the same delimiter, it is the header line
/// itself.
pub proof fn lemma_header_line_written(input: Seq<Seq<char>>)
    requires
        input.len() >= 2,
        inferred(input[0]) is Some,
        inferred(input[1]) is Some,
    ensures
        inferred(header_line_written(input)) == inferred(input[1]),
        inferred(input[1]) == inferred(input[0]) ==> header_line_written(input) == input[0],
{
    let line = input[0];
    let written = header_line_written(input);
    let j: int = choose|j: int| 0 <= j < line.len() && line[j] == inferred(line)->0.ch();
    assert(written[j] == inferred(input[1])->0.ch());
    if written.contains(',') {
        let k: int = choose|k: int| 0 <= k < written.len() && written[k] == ',';
        assert(line[k] == ',' || inferred(input[1])->0.ch() == ',');
    }
    if inferred(input[1]) == inferred(input[0]) {
        assert(written == line);
    }
}

/// With no column list and no header file, a run on what a first run wrote
/// writes the same again, and fails or not as the first did, exactly on the
/// inputs that are `settled`. It does not where the first run wrote only
/// the names of the header, or nothing for want of rows, or the diagnostic
/// for a first row without delimiter.
pub proof fn lemma_pass_through_idempotent(
    settings: Settings,
    stdin_is_terminal: bool,
    header_source: Seq<char>,
    input: Seq<Seq<char>>,
)
    requires
        settings.output_columns is None,
        settings.header_file is None,
    ensures
        ({
            let once = settings.run(stdin_is_terminal, header_source, input);
            settings.run(stdin_is_terminal, header_source, once.lines) == once
        }) <==> settled(settings, stdin_is_terminal, input),
{
    let once = settings.run(stdin_is_terminal, header_source, input);
    let line = settings.header_line(header_source, input);
    lemma_header_names(line);
    if settings.lacks_input(stdin_is_terminal) {
        // Both runs are refused.
    } else if header_of(line).len() == 0 {
        // The diagnostic is read as a header line and gives no header either.
        lemma_empty_header_line_has_no_delimiter();
        lemma_header_names(EMPTY_HEADER@);
    } else if settings.list_header {
        // The second run reads the first name as its header line.
        let name = header_of(line)[0];
        if header_of(name).len() > 0 {
            lemma_first_name_is_not_the_line(name);
        }
    } else {
        lemma_run_pass_through(settings, stdin_is_terminal, header_source, input);
        lemma_run_pass_through(settings, stdin_is_terminal, header_source, once.lines);
        if input.len() >= 2 && inferred(input[1]) is Some {
            // The second run reads the same rows under the header line that
            // the first wrote, which gives the delimiter of the first row.
            let written = header_line_written(input);
            let e = inferred(input[1])->0.ch();
            lemma_header_line_written(input);
            assert(once.lines.skip(1) == input.skip(1));
            assert(replace(written, e, e) == written);
        }
    }
}

/// With a header file and no column list, every line of the main input is
/// a row: the run writes the header of the header file, joined by the
/// delimiter of the first input line, and then all input lines as they
/// are. Without input lines it writes nothing.
pub proof fn lemma_header_file_keeps_rows(
    settings: Settings,
    stdin_is_terminal: bool,
    header_source: Seq<char>,
    input: Seq<Seq<char>>,
)
    requires
        settings.output_columns is None,
        settings.header_file is Some,
        !settings.list_header,
        !settings.lacks_input(stdin_is_terminal),
    ensures
        settings.run(stdin_is_terminal, header_source, input) == (if header_of(
            header_source,
        ).len() == 0 {
            Report::failed(seq![EMPTY_HEADER@], Failure::EmptyHeader)
        } else if input.len() == 0 {
            Report::nothing()
        } else {
            match inferred(input[0]) {
                None => Report::failed(seq![NO_DELIMITER@], Failure::NoDelimiter),
                Some(d) => Report::written(seq![join(header_of(header_source), d.ch())] + input),
            }
        }),
{
    let header = header_of(header_source);
    if header.len() > 0 {
        let names = requested(settings.output_columns);
        assert(projection(header, names) == Seq::<Column>::empty());
        lemma_stream_pass_through(header, input);
    }
}

/// Where a requested column is not in the header, the run writes nothing,
/// whatever rows the input holds.
pub proof fn lemma_unknown_column_writes_nothing(
    settings: Settings,
    stdin_is_terminal: bool,
    header_source: Seq<char>,
    input: Seq<Seq<char>>,
)
    requires
        !settings.lacks_input(stdin_is_terminal),
        !settings.list_header,
        header_of(settings.header_line(header_source, input)).len() > 0,
        !resolvable(
            header_of(settings.header_line(header_source, input)),
            requested(settings.output_columns),
        ),
    ensures
        settings.run(stdin_is_terminal, header_source, input) == Report::failed(
            Seq::empty(),
            Failure::UnknownColumn,
        ),
{
}

/// Asked for the names of the header, the run writes them, each on a line
/// of its own, and no row.
pub proof fn lemma_list_header(
    settings: Settings,
    stdin_is_terminal: bool,
    header_source: Seq<char>,
    input: Seq<Seq<char>>,
)
    requires
        !settings.lacks_input(stdin_is_terminal),
        settings.list_header,
        header_of(settings.header_line(header_source, input)).len() > 0,
    ensures
        settings.run(stdin_is_terminal, header_source, input) == Report::written(
            header_of(settings.header_line(header_source, input)),
        ),
{
}

} // verus!
