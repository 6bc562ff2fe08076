//! Delimited text: whitespace, trimming and splitting on a separator.

use vstd::prelude::*;

verus! {

/// Whether `c` is a white-space character: the Unicode `White_Space` code points.
pub open spec fn whitespace(c: char) -> bool {
    ||| '\u{9}' <= c <= '\u{d}'
    ||| c == ' '
    ||| c == '\u{85}'
    ||| c == '\u{a0}'
    ||| c == '\u{1680}'
    ||| '\u{2000}' <= c <= '\u{200a}'
    ||| c == '\u{2028}'
    ||| c == '\u{2029}'
    ||| c == '\u{202f}'
    ||| c == '\u{205f}'
    ||| c == '\u{3000}'
}

/// `s` without its leading white space.
pub open spec fn trim_start(s: Seq<char>) -> Seq<char>
    decreases s.len(),
{
    if s.len() > 0 && whitespace(s.first()) {
        trim_start(s.drop_first())
    } else {
        s
    }
}

/// `s` without its trailing white space.
pub open spec fn trim_end(s: Seq<char>) -> Seq<char>
    decreases s.len(),
{
    if s.len() > 0 && whitespace(s.last()) {
        trim_end(s.drop_last())
    } else {
        s
    }
}

/// `s` without leading and trailing white space.
pub open spec fn trimmed(s: Seq<char>) -> Seq<char> {
    trim_end(trim_start(s))
}

/// Position of the first `sep` in `s`, or `s.len()` when there is none.
pub open spec fn first_position(s: Seq<char>, sep: char) -> int
    decreases s.len(),
{
    if s.len() == 0 || s.first() == sep {
        0
    } else {
        1 + first_position(s.drop_first(), sep)
    }
}

/// The pieces of `s` between occurrences of `sep`, in order.
///
/// There is always at least one piece; a separator at either end, or two in
/// a row, give an empty piece.
pub open spec fn pieces(s: Seq<char>, sep: char) -> Seq<Seq<char>>
    decreases s.len(),
{
    let at = first_position(s, sep);
    if 0 <= at < s.len() {
        seq![s.take(at)] + pieces(s.skip(at + 1), sep)
    } else {
        seq![s]
    }
}

/// Every field of a line: its pieces between commas, each trimmed.
pub open spec fn fields_of_line(line: Seq<char>) -> Seq<Seq<char>> {
    pieces(line, ',').map_values(|piece: Seq<char>| trimmed(piece))
}

/// The first position of `sep` is the one before which no `sep` occurs.
pub proof fn lemma_first_position(s: Seq<char>, sep: char, at: int)
    requires
        0 <= at <= s.len(),
        forall|j: int| 0 <= j < at ==> s[j] != sep,
        at < s.len() ==> s[at] == sep,
    ensures
        first_position(s, sep) == at,
    decreases at,
{
    if at > 0 {
        lemma_first_position(s.drop_first(), sep, at - 1);
    }
}

/// Leading white space ends at the first character that is none.
pub proof fn lemma_trim_start(s: Seq<char>, from: int)
    requires
        0 <= from <= s.len(),
        forall|j: int| 0 <= j < from ==> whitespace(s[j]),
        from < s.len() ==> !whitespace(s[from]),
    ensures
        trim_start(s) == s.skip(from),
    decreases from,
{
    if from > 0 {
        lemma_trim_start(s.drop_first(), from - 1);
        assert(s.drop_first().skip(from - 1) =~= s.skip(from));
    } else {
        assert(s.skip(0) =~= s);
    }
}

/// Trailing white space begins after the last character that is none.
pub proof fn lemma_trim_end(s: Seq<char>, to: int)
    requires
        0 <= to <= s.len(),
        forall|j: int| to <= j < s.len() ==> whitespace(s[j]),
        to > 0 ==> !whitespace(s[to - 1]),
    ensures
        trim_end(s) == s.take(to),
    decreases s.len() - to,
{
    if to < s.len() {
        lemma_trim_end(s.drop_last(), to);
        assert(s.drop_last().take(to) =~= s.take(to));
    } else {
        assert(s.take(to) =~= s);
    }
}

/// Tests whether `c` is a white-space character.
pub fn is_whitespace(c: char) -> (b: bool)
    ensures
        b == whitespace(c),
{
    ('\u{9}' <= c && c <= '\u{d}') || c == ' ' || c == '\u{85}' || c == '\u{a0}' || c
        == '\u{1680}' || ('\u{2000}' <= c && c <= '\u{200a}') || c == '\u{2028}' || c
        == '\u{2029}' || c == '\u{202f}' || c == '\u{205f}' || c == '\u{3000}'
}

/// Returns `text` without leading and trailing white space.
pub fn trim(text: &str) -> (out: &str)
    ensures
        out@ == trimmed(text@),
{
    broadcast use vstd::string::group_string_axioms;

    let len: usize = text.unicode_len();
    let mut start: usize = 0;
    let mut end: usize = 0;
    let mut found = false;
    let mut i: usize = 0;
    for c in it: text.chars()
        invariant
            i == it.index(),
            it.seq() == text@,
            len == text@.len(),
            !found ==> start == 0 && end == 0,
            !found ==> forall|j: int| 0 <= j < i ==> whitespace(text@[j]),
            found ==> start < end <= i,
            found ==> !whitespace(text@[start as int]) && !whitespace(text@[end - 1]),
            found ==> forall|j: int| 0 <= j < start ==> whitespace(text@[j]),
            found ==> forall|j: int| end <= j < i ==> whitespace(text@[j]),
    {
        if !is_whitespace(c) {
            if !found {
                start = i;
                found = true;
            }
            end = i + 1;
        }
        i = i + 1;
    }
    proof {
        let s = text@;
        if found {
            lemma_trim_start(s, start as int);
            lemma_trim_end(s.skip(start as int), end - start);
            assert(s.skip(start as int).take(end - start) =~= s.subrange(start as int, end as int));
        } else {
            lemma_trim_start(s, s.len() as int);
            assert(s.skip(s.len() as int) =~= s.subrange(0, 0));
        }
    }
    text.substring_char(start, end)
}

/// Splits `text` at every occurrence of `sep`.
pub fn split<'a>(text: &'a str, sep: char) -> (parts: Vec<&'a str>)
    ensures
        parts.deep_view() == pieces(text@, sep),
{
    broadcast use vstd::string::group_string_axioms;

    let len: usize = text.unicode_len();
    let mut parts: Vec<&'a str> = Vec::new();
    let mut start: usize = 0;
    let mut i: usize = 0;
    assert(parts.deep_view() =~= Seq::<Seq<char>>::empty());
    assert(text@.skip(0) =~= text@);
    for c in it: text.chars()
        invariant
            i == it.index(),
            it.seq() == text@,
            len == text@.len(),
            start <= i,
            forall|j: int| start <= j < i ==> text@[j] != sep,
            pieces(text@, sep) == parts.deep_view() + pieces(text@.skip(start as int), sep),
    {
        if c == sep {
            let piece = text.substring_char(start, i);
            proof {
                let rest = text@.skip(start as int);
                lemma_first_position(rest, sep, i - start);
                assert(rest.take(i - start) =~= piece@);
                assert(rest.skip(i - start + 1) =~= text@.skip(i + 1));
                assert(parts.deep_view().push(piece@) + pieces(text@.skip(i + 1), sep)
                    =~= parts.deep_view() + pieces(rest, sep));
            }
            let ghost before = parts.deep_view();
            parts.push(piece);
            assert(parts.deep_view() =~= before.push(piece@));
            start = i + 1;
        }
        i = i + 1;
    }
    let piece = text.substring_char(start, len);
    proof {
        let rest = text@.skip(start as int);
        lemma_first_position(rest, sep, rest.len() as int);
        assert(rest =~= piece@);
    }
    let ghost before = parts.deep_view();
    parts.push(piece);
    assert(parts.deep_view() =~= before.push(piece@));
    parts
}

/// Splits a line at its commas and trims every field.
pub fn split_fields(line: &str) -> (fields: Vec<String>)
    ensures
        fields.deep_view() == fields_of_line(line@),
{
    let parts = split(line, ',');
    let mut fields: Vec<String> = Vec::new();
    for i in 0..parts.len()
        invariant
            parts.deep_view() == pieces(line@, ','),
            fields.len() == i,
            forall|j: int| 0 <= j < i ==> fields[j]@ == trimmed(#[trigger] parts[j]@),
    {
        let field = trim(parts[i]).to_owned();
        fields.push(field);
    }
    assert(fields.deep_view() =~= fields_of_line(line@)) by {
        assert forall|j: int| 0 <= j < fields.len() implies fields.deep_view()[j]
            == fields_of_line(line@)[j] by {
            assert(parts.deep_view()[j] == parts[j]@);
        }
    }
    fields
}

} // verus!
