use dsvcut::projection::{project, project_row, resolve_columns, OutputColumn};

fn texts(fields: &[&str]) -> Vec<String> {
    fields.iter().map(|s| s.to_string()).collect()
}

fn pairs(columns: &[OutputColumn]) -> Vec<(String, usize)> {
    columns.iter().map(|c| (c.name.clone(), c.pos)).collect()
}

fn column(name: &str, pos: usize) -> OutputColumn {
    OutputColumn { name: name.to_string(), pos }
}

#[test]
fn no_column_list_gives_the_empty_projection() {
    let columns = resolve_columns(&texts(&["a", "b", "c"]), &None).unwrap();
    assert!(columns.is_empty());
}

#[test]
fn projection_follows_the_order_of_the_request() {
    let columns = resolve_columns(&texts(&["a", "b", "c"]), &Some(String::from("c,a"))).unwrap();
    assert_eq!(pairs(&columns), vec![(String::from("c"), 2), (String::from("a"), 0)]);
}

#[test]
fn projection_may_repeat_a_column() {
    let columns = resolve_columns(&texts(&["a", "b"]), &Some(String::from("b,b,a"))).unwrap();
    assert_eq!(
        pairs(&columns),
        vec![(String::from("b"), 1), (String::from("b"), 1), (String::from("a"), 0)]
    );
}

#[test]
fn projection_takes_the_last_of_a_repeated_header_name() {
    let columns = resolve_columns(&texts(&["x", "y", "x"]), &Some(String::from("x"))).unwrap();
    assert_eq!(pairs(&columns), vec![(String::from("x"), 2)]);
}

#[test]
fn unknown_column_fails_the_projection() {
    assert!(resolve_columns(&texts(&["a", "b", "c"]), &Some(String::from("z"))).is_none());
    assert!(resolve_columns(&texts(&["a", "b", "c"]), &Some(String::from("a,z"))).is_none());
    assert!(resolve_columns(&texts(&["a", "b", "c"]), &Some(String::from("z,a"))).is_none());
}

#[test]
fn column_names_are_not_trimmed() {
    assert!(resolve_columns(&texts(&["a", "b"]), &Some(String::from("a, b"))).is_none());
    assert!(resolve_columns(&texts(&["a", " b"]), &Some(String::from("a, b"))).is_some());
}

#[test]
fn empty_column_list_asks_for_the_empty_name() {
    assert!(resolve_columns(&texts(&["a", "b"]), &Some(String::new())).is_none());
    let columns = resolve_columns(&texts(&["a", "", "b"]), &Some(String::new())).unwrap();
    assert_eq!(pairs(&columns), vec![(String::new(), 1)]);
}

#[test]
fn column_list_is_split_at_commas_even_for_a_tab_header() {
    let header = texts(&["a", "b,c"]);
    assert!(resolve_columns(&header, &Some(String::from("b,c"))).is_none());
    let columns = project(&header, &texts(&["b,c"])).unwrap();
    assert_eq!(pairs(&columns), vec![(String::from("b,c"), 1)]);
}

#[test]
fn project_without_names_is_empty() {
    assert!(project(&texts(&["a"]), &texts(&[])).unwrap().is_empty());
    assert!(project(&texts(&[]), &texts(&[])).unwrap().is_empty());
    assert!(project(&texts(&[]), &texts(&["a"])).is_none());
}

#[test]
fn row_is_projected_in_projection_order() {
    let columns = vec![column("b", 1), column("a", 0)];
    assert_eq!(project_row(&texts(&["1", "2", "3"]), &columns), Some(texts(&["2", "1"])));
}

#[test]
fn row_longer_than_the_header_is_projected() {
    let columns = vec![column("c", 2)];
    assert_eq!(project_row(&texts(&["1", "2", "3", "4", "5"]), &columns), Some(texts(&["3"])));
}

#[test]
fn short_row_is_not_projected() {
    let columns = vec![column("a", 0), column("c", 2)];
    assert_eq!(project_row(&texts(&["1", "2"]), &columns), None);
    assert_eq!(project_row(&texts(&[]), &columns), None);
}

#[test]
fn empty_projection_of_a_row_is_empty() {
    assert_eq!(project_row(&texts(&["1", "2"]), &[].to_vec()), Some(texts(&[])));
}
