use dsvcut::outcome::Failure;
use dsvcut::header::infer_header_from_file;
use dsvcut::run::{Opt, Prepared};

fn opt(header_file: Option<&str>, columns: Option<&str>, list_header: bool) -> Opt {
    Opt {
        header_file: header_file.map(String::from),
        input_file: Some(String::from("data")),
        output_columns: columns.map(String::from),
        list_header,
    }
}

fn lines(text: &[&str]) -> Vec<String> {
    text.iter().map(|s| s.to_string()).collect()
}

#[test]
fn list_header_writes_one_name_per_line() {
    let out = opt(Some("header"), None, true).run(false, "a,b,c", &lines(&["1,2,3"]));
    assert_eq!(out.lines, lines(&["a", "b", "c"]));
    assert_eq!(out.failure, None);
}

#[test]
fn list_header_reads_the_main_input_without_a_header_file() {
    let out = opt(None, None, true).run(false, "", &lines(&["x\ty", "1\t2"]));
    assert_eq!(out.lines, lines(&["x", "y"]));
    assert_eq!(out.failure, None);
}

#[test]
fn list_header_comes_before_the_column_list() {
    let out = opt(None, Some("z"), true).run(false, "", &lines(&["a,b", "1,2"]));
    assert_eq!(out.lines, lines(&["a", "b"]));
    assert_eq!(out.failure, None);
}

#[test]
fn columns_are_selected_and_reordered() {
    let out = opt(None, Some("b,a"), false).run(false, "", &lines(&["a,b,c", "1,2,3"]));
    assert_eq!(out.lines, lines(&["b,a", "2,1"]));
    assert_eq!(out.failure, None);
}

#[test]
fn unknown_column_writes_nothing() {
    let out = opt(None, Some("z"), false).run(false, "", &lines(&["a,b,c", "1,2,3", "4,5,6"]));
    assert!(out.lines.is_empty());
    assert_eq!(out.failure, Some(Failure::UnknownColumn));
}

#[test]
fn unknown_column_writes_nothing_whatever_follows() {
    for rows in 0..5 {
        let mut input = lines(&["a,b,c"]);
        for _ in 0..rows {
            input.push(String::from("1,2,3"));
        }
        let out = opt(None, Some("a,z"), false).run(false, "", &input);
        assert!(out.lines.is_empty());
        assert_eq!(out.failure, Some(Failure::UnknownColumn));
    }
}

#[test]
fn tab_separated_input_passes_through() {
    let input = lines(&["a\tb\tc", "1\t2\t3"]);
    let out = opt(None, None, false).run(false, "", &input);
    assert_eq!(out.lines, input);
    assert_eq!(out.failure, None);
}

#[test]
fn comma_separated_input_passes_through() {
    let input = lines(&["a,b", "1,2", " 3 , 4 ", "5", ",,,", "x\ty,z"]);
    let out = opt(None, None, false).run(false, "", &input);
    assert_eq!(out.lines, input);
    assert_eq!(out.failure, None);
}

#[test]
fn pass_through_keeps_white_space_at_the_end_of_the_header_line() {
    let input = lines(&["a,b  ", "1,2  "]);
    let out = opt(None, None, false).run(false, "", &input);
    assert_eq!(out.lines, input);
    assert_eq!(out.failure, None);
}

#[test]
fn pass_through_keeps_a_header_line_that_ends_in_a_tab() {
    let input = lines(&["a\tb\t", "1\t2\t3"]);
    let out = opt(None, None, false).run(false, "", &input);
    assert_eq!(out.lines, input);
    assert_eq!(out.failure, None);
}

#[test]
fn pass_through_writes_the_header_line_with_the_delimiter_of_the_first_row() {
    let out = opt(None, None, false).run(false, "", &lines(&["a,b", "1\t2"]));
    assert_eq!(out.lines, lines(&["a\tb", "1\t2"]));
    assert_eq!(out.failure, None);
}

#[test]
fn pass_through_twice_writes_the_same() {
    let settings = opt(None, None, false);
    let once = settings.run(false, "", &lines(&["a,b  ", "1,2", "3,4 "]));
    assert_eq!(once.lines, lines(&["a,b  ", "1,2", "3,4 "]));
    assert_eq!(once.failure, None);
    let twice = settings.run(false, "", &once.lines);
    assert_eq!(twice.lines, once.lines);
    assert_eq!(twice.failure, None);
}

#[test]
fn header_alone_writes_nothing() {
    let out = opt(None, None, false).run(false, "", &lines(&["a,b"]));
    assert!(out.lines.is_empty());
    assert_eq!(out.failure, None);
}

#[test]
fn header_file_leaves_first_input_line_as_data() {
    let out = opt(Some("header"), None, false).run(false, "a,b", &lines(&["1,2", "3,4"]));
    assert_eq!(out.lines, lines(&["a,b", "1,2", "3,4"]));
    assert_eq!(out.failure, None);
}

#[test]
fn header_file_with_columns() {
    let out =
        opt(Some("header"), Some("b"), false).run(false, "a\tb", &lines(&["1\t2", "3\t4"]));
    assert_eq!(out.lines, lines(&["b", "2", "4"]));
    assert_eq!(out.failure, None);
}

#[test]
fn header_source_counts_only_with_a_header_file() {
    let out = opt(None, None, false).run(false, "x,y", &lines(&["a,b", "1,2"]));
    assert_eq!(out.lines, lines(&["a,b", "1,2"]));
}

#[test]
fn header_without_delimiter_stops_the_run() {
    let out = opt(None, None, false).run(false, "", &lines(&["abc", "1,2"]));
    assert_eq!(out.lines, lines(&["cannot infer the csv header"]));
    assert_eq!(out.failure, Some(Failure::EmptyHeader));
}

#[test]
fn empty_input_stops_the_run() {
    let out = opt(None, None, false).run(false, "", &lines(&[]));
    assert_eq!(out.lines, lines(&["cannot infer the csv header"]));
    assert_eq!(out.failure, Some(Failure::EmptyHeader));
}

#[test]
fn empty_header_file_stops_the_run() {
    let out = opt(Some("header"), None, true).run(false, "", &lines(&["1,2"]));
    assert_eq!(out.lines, lines(&["cannot infer the csv header"]));
    assert_eq!(out.failure, Some(Failure::EmptyHeader));
}

#[test]
fn first_row_without_delimiter_stops_the_run() {
    let out = opt(None, None, false).run(false, "", &lines(&["a,b", "12", "3,4"]));
    assert_eq!(out.lines, lines(&["error: cannot infer a proper splitor"]));
    assert_eq!(out.failure, Some(Failure::NoDelimiter));
}

#[test]
fn short_row_stops_the_run() {
    let input = lines(&["a,b,c", "1,2,3", "4,5", "6,7,8"]);
    let out = opt(None, Some("c"), false).run(false, "", &input);
    assert_eq!(out.lines, lines(&["c", "3"]));
    assert_eq!(out.failure, Some(Failure::ShortRow));
}

#[test]
fn missing_input_stops_the_run() {
    let settings = Opt {
        header_file: None,
        input_file: None,
        output_columns: None,
        list_header: false,
    };
    let out = settings.run(true, "", &lines(&["a,b", "1,2"]));
    assert_eq!(out.lines, lines(&["missing input file or input stream"]));
    assert_eq!(out.failure, Some(Failure::MissingInput));
}

#[test]
fn piped_input_is_used() {
    let settings = Opt {
        header_file: None,
        input_file: None,
        output_columns: None,
        list_header: false,
    };
    let out = settings.run(false, "", &lines(&["a,b", "1,2"]));
    assert_eq!(out.lines, lines(&["a,b", "1,2"]));
    assert_eq!(out.failure, None);
}

#[test]
fn input_is_lacking_only_without_file_on_a_terminal() {
    let mut settings = opt(None, None, false);
    assert!(!settings.lacks_input(true));
    assert!(!settings.lacks_input(false));
    settings.input_file = None;
    assert!(settings.lacks_input(true));
    assert!(!settings.lacks_input(false));
}

#[test]
fn run_with_an_input_file_is_never_refused() {
    assert!(!opt(None, None, false).refuses());
    assert!(!opt(Some("header"), Some("a"), true).refuses());
}

#[test]
fn run_without_an_input_file_is_refused_on_a_terminal_only() {
    let settings = Opt {
        header_file: None,
        input_file: None,
        output_columns: None,
        list_header: false,
    };
    let refused = settings.refuses();
    assert_eq!(refused, settings.lacks_input(refused));
}

#[test]
fn each_failure_has_its_diagnostic() {
    assert_eq!(
        Failure::MissingInput.message(),
        Some(String::from("missing input file or input stream"))
    );
    assert_eq!(Failure::EmptyHeader.message(), Some(String::from("cannot infer the csv header")));
    assert_eq!(
        Failure::NoDelimiter.message(),
        Some(String::from("error: cannot infer a proper splitor"))
    );
    assert_eq!(Failure::UnknownColumn.message(), None);
    assert_eq!(Failure::ShortRow.message(), None);
}

#[test]
fn prepare_gives_header_and_projection() {
    match opt(None, Some("c,a"), false).prepare(infer_header_from_file("a,b,c\n")) {
        Prepared::Ready(plan) => {
            assert_eq!(plan.header, lines(&["a", "b", "c"]));
            assert_eq!(plan.columns.len(), 2);
            assert_eq!(plan.columns[0].name, "c");
            assert_eq!(plan.columns[0].pos, 2);
            assert_eq!(plan.columns[1].name, "a");
            assert_eq!(plan.columns[1].pos, 0);
        }
        Prepared::Done(out) => panic!("the run should go on: {:?}", out),
    }
}

#[test]
fn prepare_ends_the_run_where_the_header_is_listed() {
    match opt(None, None, true).prepare(infer_header_from_file("a,b,c\n")) {
        Prepared::Done(out) => {
            assert_eq!(out.lines, lines(&["a", "b", "c"]));
            assert_eq!(out.failure, None);
        }
        Prepared::Ready(plan) => panic!("the run should be over: {:?}", plan),
    }
}

#[test]
fn prepare_ends_the_run_on_an_unknown_column() {
    match opt(None, Some("a,z"), false).prepare(infer_header_from_file("a,b,c\n")) {
        Prepared::Done(out) => {
            assert!(out.lines.is_empty());
            assert_eq!(out.failure, Some(Failure::UnknownColumn));
        }
        Prepared::Ready(plan) => panic!("the run should be over: {:?}", plan),
    }
}

#[test]
fn second_pass_keeps_a_header_line_rewritten_with_tabs() {
    let settings = opt(None, None, false);
    let once = settings.run(false, "", &lines(&["a,b", "1\t2"]));
    assert_eq!(once.lines, lines(&["a\tb", "1\t2"]));
    let twice = settings.run(false, "", &once.lines);
    assert_eq!(twice.lines, once.lines);
    assert_eq!(twice.failure, once.failure);
}

#[test]
fn second_pass_keeps_a_header_line_that_ends_in_a_tab() {
    let settings = opt(None, None, false);
    let once = settings.run(false, "", &lines(&["a,", "1\t2"]));
    assert_eq!(once.lines, lines(&["a\t", "1\t2"]));
    assert_eq!(once.failure, None);
    let twice = settings.run(false, "", &once.lines);
    assert_eq!(twice.lines, once.lines);
    assert_eq!(twice.failure, None);
}

#[test]
fn second_pass_after_a_first_row_without_delimiter_differs() {
    let settings = opt(None, None, false);
    let once = settings.run(false, "", &lines(&["a,b", "12"]));
    assert_eq!(once.failure, Some(Failure::NoDelimiter));
    let twice = settings.run(false, "", &once.lines);
    assert_eq!(twice.lines, lines(&["cannot infer the csv header"]));
    assert_eq!(twice.failure, Some(Failure::EmptyHeader));
}

#[test]
fn second_pass_after_a_header_alone_finds_no_header() {
    let settings = opt(None, None, false);
    let once = settings.run(false, "", &lines(&["a,b"]));
    assert!(once.lines.is_empty());
    let twice = settings.run(false, "", &once.lines);
    assert_eq!(twice.lines, lines(&["cannot infer the csv header"]));
    assert_eq!(twice.failure, Some(Failure::EmptyHeader));
}

#[test]
fn second_pass_repeats_the_diagnostic_for_a_missing_header() {
    let settings = opt(None, None, false);
    let once = settings.run(false, "", &lines(&["abc", "1,2"]));
    let twice = settings.run(false, "", &once.lines);
    assert_eq!(twice.lines, once.lines);
    assert_eq!(twice.failure, once.failure);
    assert_eq!(twice.failure, Some(Failure::EmptyHeader));
}

#[test]
fn second_pass_with_a_header_file_adds_a_header_line() {
    let settings = opt(Some("header"), None, false);
    let once = settings.run(false, "a,b", &lines(&["1,2"]));
    let twice = settings.run(false, "a,b", &once.lines);
    assert_eq!(once.lines, lines(&["a,b", "1,2"]));
    assert_eq!(twice.lines, lines(&["a,b", "a,b", "1,2"]));
}

#[test]
fn prepare_ends_the_run_on_an_empty_header() {
    match opt(None, None, false).prepare(infer_header_from_file("abc\n")) {
        Prepared::Done(out) => {
            assert_eq!(out.lines, lines(&["cannot infer the csv header"]));
            assert_eq!(out.failure, Some(Failure::EmptyHeader));
        }
        Prepared::Ready(plan) => panic!("the run should be over: {:?}", plan),
    }
}

#[test]
fn header_line_is_used_as_it_is() {
    let out = opt(Some("header"), None, false).run(false, "a,b ", &lines(&["1,2"]));
    assert_eq!(out.lines, lines(&["a,b ", "1,2"]));
    let out = opt(None, Some("b "), false).run(false, "", &lines(&["a,b ", "1,2"]));
    assert_eq!(out.lines, lines(&["b ", "2"]));
    assert_eq!(out.failure, None);
}

#[test]
fn header_of_one_name_and_an_empty_one_is_a_header() {
    let out = opt(None, None, true).run(false, "", &lines(&["a\t", "1\t2"]));
    assert_eq!(out.lines, lines(&["a", ""]));
    assert_eq!(out.failure, None);
}
