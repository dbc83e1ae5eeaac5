use dsvcut::delimiter::{infer_delimiter, infer_splitor, Delimiter};

#[test]
fn comma_is_inferred_where_there_is_one() {
    assert_eq!(infer_splitor("a,b,c"), Some(String::from(",")));
    assert_eq!(infer_delimiter("a,b,c"), Some(Delimiter::Comma));
}

#[test]
fn tab_is_inferred_where_there_is_no_comma() {
    assert_eq!(infer_splitor("a\tb\tc"), Some(String::from("\t")));
    assert_eq!(infer_delimiter("a\tb\tc"), Some(Delimiter::Tab));
}

#[test]
fn comma_wins_over_tab() {
    assert_eq!(infer_splitor("a\tb,c"), Some(String::from(",")));
    assert_eq!(infer_splitor("a,b\tc"), Some(String::from(",")));
    assert_eq!(infer_delimiter("\t,"), Some(Delimiter::Comma));
}

#[test]
fn nothing_is_inferred_without_comma_and_tab() {
    assert_eq!(infer_splitor("abc"), None);
    assert_eq!(infer_splitor(""), None);
    assert_eq!(infer_splitor("a b;c|d"), None);
    assert_eq!(infer_delimiter("abc"), None);
}

#[test]
fn a_lone_delimiter_is_enough() {
    assert_eq!(infer_splitor(","), Some(String::from(",")));
    assert_eq!(infer_splitor("\t"), Some(String::from("\t")));
}

#[test]
fn delimiter_as_character_and_string() {
    assert_eq!(Delimiter::Comma.as_char(), ',');
    assert_eq!(Delimiter::Tab.as_char(), '\t');
    assert_eq!(Delimiter::Comma.as_string(), ",");
    assert_eq!(Delimiter::Tab.as_string(), "\t");
}
