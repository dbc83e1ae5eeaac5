//! Text primitives: white space, trimming, splitting and joining.
//!
//! Every contract here is stated over `Seq<char>`, the view of `str` and
//! `String`.

use vstd::prelude::*;

verus! {

/// `String::push` appends one character to the end of the string.
pub assume_specification[ String::push ](s: &mut String, ch: char)
    ensures
        final(s)@ == old(s)@.push(ch),
;

/// The characters with the Unicode property `White_Space`.
pub open spec fn is_white_space(c: char) -> bool {
    ||| '\u{9}' <= c <= '\u{D}'
    ||| c == ' '
    ||| c == '\u{85}'
    ||| c == '\u{A0}'
    ||| c == '\u{1680}'
    ||| '\u{2000}' <= c <= '\u{200A}'
    ||| c == '\u{2028}'
    ||| c == '\u{2029}'
    ||| c == '\u{202F}'
    ||| c == '\u{205F}'
    ||| c == '\u{3000}'
}

/// `s` without its trailing white space.
pub open spec fn trim_end(s: Seq<char>) -> Seq<char>
    decreases s.len(),
{
    if s.len() > 0 && is_white_space(s.last()) {
        trim_end(s.drop_last())
    } else {
        s
    }
}

/// `s` without the line end that it may have: a line feed at the end, and the
/// carriage return before it where there is one. Nothing else is removed.
pub open spec fn without_line_end(s: Seq<char>) -> Seq<char> {
    if s.len() > 0 && s.last() == '\n' {
        let body = s.drop_last();
        if body.len() > 0 && body.last() == '\r' {
            body.drop_last()
        } else {
            body
        }
    } else {
        s
    }
}

/// The fields of `s`: reading from the left, every `d` closes the current
/// field and opens a new one, and any other character extends the current
/// field. There is always at least one field.
pub open spec fn split(s: Seq<char>, d: char) -> Seq<Seq<char>>
    decreases s.len(),
{
    if s.len() == 0 {
        seq![Seq::<char>::empty()]
    } else {
        let before = split(s.drop_last(), d);
        if s.last() == d {
            before.push(Seq::<char>::empty())
        } else {
            before.drop_last().push(before.last().push(s.last()))
        }
    }
}

/// The fields written one after the other with `d` between neighbours.
pub open spec fn join(fields: Seq<Seq<char>>, d: char) -> Seq<char>
    decreases fields.len(),
{
    if fields.len() == 0 {
        Seq::<char>::empty()
    } else if fields.len() == 1 {
        fields[0]
    } else {
        join(fields.drop_last(), d).push(d) + fields.last()
    }
}

/// `s` with every `a` replaced by `b`.
pub open spec fn replace(s: Seq<char>, a: char, b: char) -> Seq<char> {
    Seq::new(s.len(), |i: int| if s[i] == a { b } else { s[i] })
}

/// Trimming keeps a prefix of the text, removes white space only, and leaves
/// no white space at the end.
pub proof fn lemma_trim_end_is_prefix(s: Seq<char>)
    ensures
        trim_end(s).len() <= s.len(),
        trim_end(s) == s.take(trim_end(s).len() as int),
        forall|i: int| trim_end(s).len() <= i < s.len() ==> is_white_space(#[trigger] s[i]),
        trim_end(s).len() > 0 ==> !is_white_space(trim_end(s).last()),
    decreases s.len(),
{
    if s.len() > 0 && is_white_space(s.last()) {
        lemma_trim_end_is_prefix(s.drop_last());
        let n: int = trim_end(s).len() as int;
        assert forall|i: int| n <= i < s.len() implies is_white_space(#[trigger] s[i]) by {
            if i < s.len() - 1 {
                assert(s.drop_last()[i] == s[i]);
            }
        }
    }
}

/// Trimming a second time changes nothing.
pub proof fn lemma_trim_end_idempotent(s: Seq<char>)
    ensures
        trim_end(trim_end(s)) == trim_end(s),
    decreases s.len(),
{
    if s.len() > 0 && is_white_space(s.last()) {
        lemma_trim_end_idempotent(s.drop_last());
    }
}

/// A line end added to a line is removed again, and a line that does not
/// end in a line feed is left as it is.
pub proof fn lemma_without_line_end(line: Seq<char>)
    ensures
        without_line_end(line + seq!['\r', '\n']) == line,
        line.len() == 0 || line.last() != '\r' ==> without_line_end(line + seq!['\n']) == line,
        line.len() == 0 || line.last() != '\n' ==> without_line_end(line) == line,
{
    let crlf = line + seq!['\r', '\n'];
    assert(crlf.drop_last() == line + seq!['\r']);
    assert(crlf.drop_last().drop_last() == line);
    assert((line + seq!['\n']).drop_last() == line);
}

/// There is always a field, and no field holds the delimiter. A text
/// without the delimiter is a single field, the text itself; any other text
/// has at least two fields.
pub proof fn lemma_split_fields(s: Seq<char>, d: char)
    ensures
        split(s, d).len() >= 1,
        forall|i: int| 0 <= i < split(s, d).len() ==> !(#[trigger] split(s, d)[i]).contains(d),
        !s.contains(d) ==> split(s, d) == seq![s],
        s.contains(d) ==> split(s, d).len() >= 2,
    decreases s.len(),
{
    if s.len() == 0 {
        assert(s == Seq::<char>::empty());
    } else {
        let front = s.drop_last();
        lemma_split_fields(front, d);
        assert(s == front.push(s.last()));
        if s.last() != d && front.contains(d) {
            let j: int = choose|j: int| 0 <= j < front.len() && front[j] == d;
            assert(s[j] == d);
        }
    }
}

/// Joining the fields of a text with another delimiter replaces the one
/// delimiter by the other and changes nothing else.
pub proof fn lemma_join_split_replaces(s: Seq<char>, a: char, b: char)
    ensures
        join(split(s, a), b) == replace(s, a, b),
    decreases s.len(),
{
    if s.len() > 0 {
        let front = s.drop_last();
        let before = split(front, a);
        let now = split(s, a);
        lemma_join_split_replaces(front, a, b);
        lemma_split_fields(front, a);
        if s.last() == a {
            assert(now.drop_last() == before);
        } else if before.len() > 1 {
            assert(now.drop_last() == before.drop_last());
            assert(join(now, b) == join(before, b).push(s.last()));
        }
    }
}

/// Splitting and joining with the same delimiter gives the text back.
pub proof fn lemma_join_split(s: Seq<char>, d: char)
    ensures
        join(split(s, d), d) == s,
{
    lemma_join_split_replaces(s, d, d);
}

/// Text without the delimiter, added at the end, extends the last field.
proof fn lemma_split_extends_last(s: Seq<char>, tail: Seq<char>, d: char)
    requires
        !tail.contains(d),
    ensures
        split(s + tail, d) == split(s, d).drop_last().push(split(s, d).last() + tail),
    decreases tail.len(),
{
    lemma_split_fields(s, d);
    if tail.len() > 0 {
        let front = tail.drop_last();
        lemma_split_extends_last(s, front, d);
        assert((s + tail).drop_last() == s + front);
        assert(split(s + front, d).last().push(tail.last()) == split(s, d).last() + tail);
    }
}

/// Joining fields that hold no delimiter and splitting the result gives the
/// fields back.
pub proof fn lemma_split_join(fields: Seq<Seq<char>>, d: char)
    requires
        fields.len() >= 1,
        forall|i: int| 0 <= i < fields.len() ==> !(#[trigger] fields[i]).contains(d),
    ensures
        split(join(fields, d), d) == fields,
    decreases fields.len(),
{
    let empty = Seq::<char>::empty();
    if fields.len() == 1 {
        lemma_split_extends_last(empty, fields[0], d);
    } else {
        let front = fields.drop_last();
        lemma_split_join(front, d);
        let text = join(front, d).push(d);
        assert(text.drop_last() == join(front, d));
        lemma_split_extends_last(text, fields.last(), d);
    }
}

/// Tells whether `c` is white space.
pub fn is_whitespace(c: char) -> (r: bool)
    ensures
        r == is_white_space(c),
{
    ('\u{9}' <= c && c <= '\u{D}') || c == ' ' || c == '\u{85}' || c == '\u{A0}' || c == '\u{1680}'
        || ('\u{2000}' <= c && c <= '\u{200A}') || c == '\u{2028}' || c == '\u{2029}' || c
        == '\u{202F}' || c == '\u{205F}' || c == '\u{3000}'
}

/// The characters of `s`, in order.
pub fn to_chars(s: &str) -> (v: Vec<char>)
    ensures
        v@ == s@,
{
    let mut v: Vec<char> = Vec::new();
    for c in it: s.chars()
        invariant
            it.seq() == s@,
            v@ == s@.take(it.index() as int),
    {
        v.push(c);
    }
    v
}

/// Tells whether `c` occurs in `line`.
pub fn contains_char(line: &str, c: char) -> (r: bool)
    ensures
        r == line@.contains(c),
{
    let mut found = false;
    for x in it: line.chars()
        invariant
            it.seq() == line@,
            found == line@.take(it.index() as int).contains(c),
    {
        proof {
            let prev = line@.take(it.index() as int);
            let next = line@.take(it.index() as int + 1);
            if x == c {
                assert(next[prev.len() as int] == c);
            } else if next.contains(c) {
                let j: int = choose|j: int| 0 <= j < next.len() && next[j] == c;
                assert(prev[j] == c);
            } else if prev.contains(c) {
                let j: int = choose|j: int| 0 <= j < prev.len() && prev[j] == c;
                assert(next[j] == c);
            }
        }
        if x == c {
            found = true;
        }
    }
    assert(line@.take(line@.len() as int) == line@);
    found
}

/// The first `end` characters as a string.
fn prefix_string(chars: &Vec<char>, end: usize) -> (r: String)
    requires
        end <= chars.len(),
    ensures
        r@ == chars@.take(end as int),
{
    let mut r = String::new();
    let mut i: usize = 0;
    while i < end
        invariant
            i <= end <= chars.len(),
            r@ == chars@.take(i as int),
        decreases end - i,
    {
        r.push(chars[i]);
        i += 1;
    }
    r
}

/// Removes the trailing white space of `line`.
pub fn trim_right(line: &str) -> (r: String)
    ensures
        r@ == trim_end(line@),
{
    let chars = to_chars(line);
    let mut end: usize = chars.len();
    assert(chars@.take(end as int) == chars@);
    while end > 0 && is_whitespace(chars[end - 1])
        invariant
            end <= chars.len(),
            trim_end(chars@) == trim_end(chars@.take(end as int)),
        decreases end,
    {
        assert(chars@.take(end as int).drop_last() == chars@.take(end as int - 1));
        end -= 1;
    }
    prefix_string(&chars, end)
}

/// Removes the line end of `line`, if it has one.
pub fn strip_line_end(line: &str) -> (r: String)
    ensures
        r@ == without_line_end(line@),
{
    let chars = to_chars(line);
    let mut end: usize = chars.len();
    assert(chars@.take(end as int) == chars@);
    if end > 0 && chars[end - 1] == '\n' {
        end -= 1;
        assert(chars@.drop_last() == chars@.take(end as int));
        if end > 0 && chars[end - 1] == '\r' {
            end -= 1;
            assert(chars@.drop_last().drop_last() == chars@.take(end as int));
        }
    }
    prefix_string(&chars, end)
}

/// Splits `line` at every `d`.
pub fn split_line(line: &str, d: char) -> (fields: Vec<String>)
    ensures
        fields.deep_view() == split(line@, d),
{
    let mut fields: Vec<String> = Vec::new();
    let mut current = String::new();
    for c in it: line.chars()
        invariant
            it.seq() == line@,
            fields.deep_view().push(current@) == split(line@.take(it.index() as int), d),
    {
        let ghost i: int = it.index() as int;
        assert(line@.take(i + 1).drop_last() == line@.take(i));
        if c == d {
            fields.push(current);
            current = String::new();
        } else {
            current.push(c);
        }
    }
    assert(line@.take(line@.len() as int) == line@);
    fields.push(current);
    fields
}

/// Writes the fields one after the other with `d` between neighbours.
pub fn join_fields(fields: &Vec<String>, d: char) -> (r: String)
    ensures
        r@ == join(fields.deep_view(), d),
{
    let mut r = String::new();
    let mut i: usize = 0;
    while i < fields.len()
        invariant
            i <= fields.len(),
            r@ == join(fields.deep_view().take(i as int), d),
        decreases fields.len() - i,
    {
        let ghost upto = fields.deep_view().take(i as int + 1);
        assert(upto.drop_last() == fields.deep_view().take(i as int));
        if i > 0 {
            r.push(d);
        }
        r.append(fields[i].as_str());
        i += 1;
    }
    assert(fields.deep_view().take(fields.len() as int) == fields.deep_view());
    r
}

} // verus!
