//! The projection: which columns are written, and in which order.

use crate::header::{header_index, lemma_header_index, position_of};
use crate::text::{split, split_line};
use vstd::prelude::*;

verus! {

/// A requested column: its name and its position in the header.
#[derive(Clone, Debug)]
pub struct OutputColumn {
    pub name: String,
    pub pos: usize,
}

/// What an `OutputColumn` stands for.
pub struct Column {
    pub name: Seq<char>,
    pub pos: nat,
}

impl DeepView for OutputColumn {
    type V = Column;

    open spec fn deep_view(&self) -> Column {
        Column { name: self.name@, pos: self.pos as nat }
    }
}

/// The names that a column list asks for: the list is split at its commas.
/// Without a list no name is asked for.
pub open spec fn requested(columns: Option<Seq<char>>) -> Seq<Seq<char>> {
    match columns {
        Some(list) => split(list, ','),
        None => Seq::empty(),
    }
}

/// Every requested name stands in the header.
pub open spec fn resolvable(header: Seq<Seq<char>>, names: Seq<Seq<char>>) -> bool {
    forall|i: int| 0 <= i < names.len() ==> header.contains(#[trigger] names[i])
}

/// The requested names in the order of the request, each with its position
/// in the header.
pub open spec fn projection(header: Seq<Seq<char>>, names: Seq<Seq<char>>) -> Seq<Column> {
    Seq::new(
        names.len(),
        |i: int| Column { name: names[i], pos: header_index(header)[names[i]] },
    )
}

/// The names of the columns, in order.
pub open spec fn names_of(columns: Seq<Column>) -> Seq<Seq<char>> {
    Seq::new(columns.len(), |i: int| columns[i].name)
}

/// Every column lies within a row of `width` fields.
pub open spec fn fits(columns: Seq<Column>, width: nat) -> bool {
    forall|i: int| 0 <= i < columns.len() ==> (#[trigger] columns[i]).pos < width
}

/// The fields of a row at the columns' positions, in the columns' order.
pub open spec fn projected(fields: Seq<Seq<char>>, columns: Seq<Column>) -> Seq<Seq<char>> {
    Seq::new(columns.len(), |i: int| fields[columns[i].pos as int])
}

/// A projection keeps the order and the names of the request, and every
/// position lies in the header, holds the requested name, and is the last
/// that does.
pub proof fn lemma_projection(header: Seq<Seq<char>>, names: Seq<Seq<char>>)
    requires
        resolvable(header, names),
    ensures
        names_of(projection(header, names)) == names,
        fits(projection(header, names), header.len()),
        projected(header, projection(header, names)) == names,
        forall|i: int, j: int|
            0 <= i < names.len() && projection(header, names)[i].pos < j < header.len()
                ==> #[trigger] header[j] != #[trigger] names[i],
{
    let p = projection(header, names);
    assert forall|i: int| 0 <= i < names.len() implies (#[trigger] p[i]).pos < header.len()
        && header[p[i].pos as int] == names[i] && (forall|j: int|
        p[i].pos < j < header.len() ==> header[j] != names[i]) by {
        lemma_header_index(header, names[i]);
    }
}

/// Resolves the requested names against the header. Succeeds exactly if
/// every name stands in the header, and then gives the names in the order
/// of the request, each with its last position in the header.
pub fn project(header: &Vec<String>, names: &Vec<String>) -> (r: Option<Vec<OutputColumn>>)
    ensures
        r is Some <==> resolvable(header.deep_view(), names.deep_view()),
        r is Some ==> r->0.deep_view() == projection(header.deep_view(), names.deep_view()),
        r is Some ==> names_of(r->0.deep_view()) == names.deep_view(),
        r is Some ==> fits(r->0.deep_view(), header.len() as nat),
{
    proof {
        if resolvable(header.deep_view(), names.deep_view()) {
            lemma_projection(header.deep_view(), names.deep_view());
        }
    }
    let ghost head = header.deep_view();
    let ghost asked = names.deep_view();
    let mut columns: Vec<OutputColumn> = Vec::new();
    let mut i: usize = 0;
    while i < names.len()
        invariant
            i <= names.len(),
            head == header.deep_view(),
            asked == names.deep_view(),
            resolvable(head, asked.take(i as int)),
            columns.deep_view() == projection(head, asked.take(i as int)),
        decreases names.len() - i,
    {
        proof {
            lemma_header_index(head, names[i as int]@);
            assert(asked[i as int] == names[i as int]@);
        }
        match position_of(header, &names[i]) {
            Some(pos) => {
                let ghost before = columns.deep_view();
                columns.push(OutputColumn { name: names[i].clone(), pos });
                assert(columns.deep_view() == before.push(
                    Column { name: names[i as int]@, pos: pos as nat },
                ));
            },
            None => {
                return None;
            },
        }
        i += 1;
    }
    assert(asked.take(names.len() as int) == asked);
    Some(columns)
}

/// Resolves a column list against the header. Without a list the projection
/// is empty and rows pass through as they are. With a list, succeeds exactly
/// if every name of the list stands in the header.
pub fn resolve_columns(header: &Vec<String>, columns: &Option<String>) -> (r: Option<
    Vec<OutputColumn>,
>)
    ensures
        r is Some <==> resolvable(header.deep_view(), requested(columns.deep_view())),
        r is Some ==> r->0.deep_view() == projection(
            header.deep_view(),
            requested(columns.deep_view()),
        ),
{
    match columns {
        Some(list) => {
            let names = split_line(list.as_str(), ',');
            project(header, &names)
        },
        None => project(header, &Vec::new()),
    }
}

/// Picks the fields of a row at the columns' positions. Succeeds exactly if
/// the row has a field at every position.
pub fn project_row(fields: &Vec<String>, columns: &Vec<OutputColumn>) -> (r: Option<Vec<String>>)
    ensures
        r is Some <==> fits(columns.deep_view(), fields.len() as nat),
        r is Some ==> r->0.deep_view() == projected(fields.deep_view(), columns.deep_view()),
{
    let mut picked: Vec<String> = Vec::new();
    let mut i: usize = 0;
    while i < columns.len()
        invariant
            i <= columns.len(),
            fits(columns.deep_view().take(i as int), fields.len() as nat),
            picked.deep_view() == projected(fields.deep_view(), columns.deep_view().take(i as int)),
        decreases columns.len() - i,
    {
        let pos = columns[i].pos;
        assert(columns.deep_view()[i as int].pos == pos);
        if pos >= fields.len() {
            return None;
        }
        let ghost before = picked.deep_view();
        picked.push(fields[pos].clone());
        assert(picked.deep_view() == before.push(fields[pos as int]@));
        i += 1;
    }
    assert(columns.deep_view().take(columns.len() as int) == columns.deep_view());
    Some(picked)
}

} // verus!
