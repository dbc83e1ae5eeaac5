//! The header: the ordered column names, and where each name stands.

use crate::delimiter::{infer_delimiter, inferred};
use crate::text::{
    join, lemma_join_split, lemma_split_fields, lemma_without_line_end, split, split_line,
    strip_line_end, without_line_end,
};
use vstd::prelude::*;

verus! {

/// The column names that a header line gives: the line is split at its own
/// delimiter, and nothing is taken from it. A line without a delimiter gives
/// no names.
pub open spec fn header_of(line: Seq<char>) -> Seq<Seq<char>> {
    match inferred(line) {
        Some(d) => split(line, d.ch()),
        None => Seq::empty(),
    }
}

/// The position of each name in the header. Positions count from zero, and
/// of a name that stands more than once the last position is kept.
pub open spec fn header_index(header: Seq<Seq<char>>) -> Map<Seq<char>, nat>
    decreases header.len(),
{
    if header.len() == 0 {
        Map::empty()
    } else {
        header_index(header.drop_last()).insert(header.last(), (header.len() - 1) as nat)
    }
}

/// A name is in the index exactly if it stands in the header, its position
/// holds that name, and no later position does.
pub proof fn lemma_header_index(header: Seq<Seq<char>>, name: Seq<char>)
    ensures
        header_index(header).dom().contains(name) <==> header.contains(name),
        header_index(header).dom().contains(name) ==> {
            let pos = header_index(header)[name];
            &&& pos < header.len()
            &&& header[pos as int] == name
            &&& forall|i: int| pos < i < header.len() ==> header[i] != name
        },
    decreases header.len(),
{
    if header.len() > 0 {
        let front = header.drop_last();
        lemma_header_index(front, name);
        if header.last() != name {
            if front.contains(name) {
                let j: int = choose|j: int| 0 <= j < front.len() && front[j] == name;
                assert(header[j] == name);
                let pos = header_index(header)[name];
                assert forall|i: int| pos < i < header.len() implies header[i] != name by {
                    if i < front.len() {
                        assert(front[i] == header[i]);
                    }
                }
            } else if header.contains(name) {
                let j: int = choose|j: int| 0 <= j < header.len() && header[j] == name;
                assert(front[j] == name);
            }
        }
    }
}

/// A header that is not empty has at least two names, none of which holds
/// the delimiter of the header line.
pub proof fn lemma_header_names(line: Seq<char>)
    ensures
        header_of(line).len() != 1,
        header_of(line).len() == 0 <==> inferred(line) is None,
        forall|i: int|
            0 <= i < header_of(line).len() ==> !(#[trigger] header_of(line)[i]).contains(
                inferred(line)->0.ch(),
            ),
{
    lemma_split_fields(line, ',');
    lemma_split_fields(line, '\t');
}

/// The names of a header, joined by the delimiter of the header line, are
/// the header line again, character for character.
pub proof fn lemma_header_joins_to_line(line: Seq<char>)
    requires
        inferred(line) is Some,
    ensures
        join(header_of(line), inferred(line)->0.ch()) == line,
{
    lemma_join_split(line, inferred(line)->0.ch());
}

/// The first name of a header is never the whole header line: the line
/// holds the delimiter, the name does not.
pub proof fn lemma_first_name_is_not_the_line(line: Seq<char>)
    requires
        header_of(line).len() > 0,
    ensures
        header_of(line)[0] != line,
{
    lemma_header_names(line);
}

/// A line read from a file gives the same header with and without its line
/// end.
pub proof fn lemma_header_ignores_line_end(line: Seq<char>)
    ensures
        header_of(without_line_end(line + seq!['\r', '\n'])) == header_of(line),
        line.len() == 0 || line.last() != '\r' ==> header_of(
            without_line_end(line + seq!['\n']),
        ) == header_of(line),
        line.len() == 0 || line.last() != '\n' ==> header_of(without_line_end(line))
            == header_of(line),
{
    lemma_without_line_end(line);
}

/// Splits a header line, given without its line end, into the column names.
/// The result is empty exactly if the line holds neither a comma nor a tab.
/// Otherwise no name holds the delimiter, and the names joined by it are the
/// line again.
pub fn split_header(line: &str) -> (header: Vec<String>)
    ensures
        header.deep_view() == header_of(line@),
        header.len() == 0 <==> inferred(line@) is None,
        inferred(line@) matches Some(d) ==> join(header.deep_view(), d.ch()) == line@,
        inferred(line@) matches Some(d) ==> forall|i: int|
            0 <= i < header.len() ==> !(#[trigger] header.deep_view()[i]).contains(d.ch()),
{
    proof {
        lemma_header_names(line@);
        if inferred(line@) is Some {
            lemma_header_joins_to_line(line@);
        }
    }
    match infer_delimiter(line) {
        Some(d) => split_line(line, d.as_char()),
        None => Vec::new(),
    }
}

/// Resolves the header from the first line of its source, given as it was
/// read: the line end is removed, if there is one, and the rest is split at
/// its own delimiter. Nothing else is taken from the line. The result is
/// empty exactly if the line without its end holds neither a comma nor a
/// tab. Otherwise no name holds the delimiter, and the names joined by it
/// are the line without its end.
pub fn infer_header_from_file(first_line: &str) -> (header: Vec<String>)
    ensures
        header.deep_view() == header_of(without_line_end(first_line@)),
        header.len() == 0 <==> inferred(without_line_end(first_line@)) is None,
        inferred(without_line_end(first_line@)) matches Some(d) ==> join(
            header.deep_view(),
            d.ch(),
        ) == without_line_end(first_line@),
        inferred(without_line_end(first_line@)) matches Some(d) ==> forall|i: int|
            0 <= i < header.len() ==> !(#[trigger] header.deep_view()[i]).contains(d.ch()),
{
    let line = strip_line_end(first_line);
    split_header(line.as_str())
}

/// Looks a name up in the header: finds the last position that holds the
/// name, or none where no position does.
pub fn position_of(header: &Vec<String>, name: &String) -> (r: Option<usize>)
    ensures
        r is Some <==> header_index(header.deep_view()).dom().contains(name@),
        r is Some ==> r->0 == header_index(header.deep_view())[name@],
        r is Some <==> header.deep_view().contains(name@),
        r is Some ==> r->0 < header.len() && header[r->0 as int]@ == name@,
        r is Some ==> forall|i: int| r->0 < i < header.len() ==> (#[trigger] header[i])@ != name@,
{
    let mut i: usize = header.len();
    assert(header.deep_view().take(i as int) == header.deep_view());
    while i > 0
        invariant
            i <= header.len(),
            header_index(header.deep_view()).dom().contains(name@) <==> header_index(
                header.deep_view().take(i as int),
            ).dom().contains(name@),
            header_index(header.deep_view()).dom().contains(name@) ==> header_index(
                header.deep_view(),
            )[name@] == header_index(header.deep_view().take(i as int))[name@],
        decreases i,
    {
        let ghost upto = header.deep_view().take(i as int);
        assert(upto.drop_last() == header.deep_view().take(i as int - 1));
        if header[i - 1] == *name {
            proof {
                lemma_header_index(header.deep_view(), name@);
                assert forall|k: int| i - 1 < k < header.len() implies (#[trigger] header[k])@
                    != name@ by {
                    assert(header.deep_view()[k] == header[k]@);
                }
            }
            return Some(i - 1);
        }
        i -= 1;
    }
    proof {
        lemma_header_index(header.deep_view(), name@);
    }
    None
}

} // verus!
