//! Reading the report settings from their text forms.

use vstd::prelude::*;
use crate::column::{lowercase_of, names_column, parses_as, trimmed_of, Column, ColumnError};

verus! {

/// The pieces of `s` between occurrences of `sep`; there is always at least one.
pub open spec fn split_on(s: Seq<char>, sep: char) -> Seq<Seq<char>>
    decreases s.len(),
{
    if s.len() == 0 {
        seq![Seq::empty()]
    } else {
        let init = split_on(s.drop_last(), sep);
        if s.last() == sep {
            init.push(Seq::empty())
        } else {
            init.update(init.len() - 1, init.last().push(s.last()))
        }
    }
}

pub open spec fn strings_view(v: Seq<String>) -> Seq<Seq<char>> {
    v.map_values(|s: String| s@)
}

/// Splits a text at every occurrence of `sep`.
pub fn split_text(s: &str, sep: char) -> (r: Vec<String>)
    ensures
        strings_view(r@) == split_on(s@, sep),
{
    let n = s.unicode_len();
    let mut pieces: Vec<String> = Vec::new();
    let mut start: usize = 0;
    let mut i: usize = 0;
    assert(s@.subrange(0, 0) =~= Seq::<char>::empty());
    assert(split_on(Seq::<char>::empty(), sep) =~= strings_view(pieces@) + seq![s@.subrange(0, 0)]);
    while i < n
        invariant
            n == s@.len(),
            start <= i <= n,
            split_on(s@.subrange(0, i as int), sep) == strings_view(pieces@) + seq![
                s@.subrange(start as int, i as int),
            ],
        decreases n - i,
    {
        let ghost before = strings_view(pieces@);
        assert(s@.subrange(0, i + 1).drop_last() =~= s@.subrange(0, i as int));
        assert(s@.subrange(0, i + 1).last() == s@[i as int]);
        if s.get_char(i) == sep {
            let piece = s.substring_char(start, i).to_owned();
            let ghost old_start = start;
            pieces.push(piece);
            start = i + 1;
            assert(strings_view(pieces@) =~= before.push(s@.subrange(old_start as int, i as int)));
            assert(s@.subrange(start as int, i + 1) =~= Seq::<char>::empty());
            assert(split_on(s@.subrange(0, i + 1), sep) =~= strings_view(pieces@) + seq![
                s@.subrange(start as int, i + 1),
            ]);
        } else {
            assert(s@.subrange(start as int, i + 1) =~= s@.subrange(start as int, i as int).push(
                s@[i as int],
            ));
            assert(split_on(s@.subrange(0, i + 1), sep) =~= strings_view(pieces@) + seq![
                s@.subrange(start as int, i + 1),
            ]);
        }
        i = i + 1;
    }
    let last = s.substring_char(start, n).to_owned();
    let ghost before = strings_view(pieces@);
    pieces.push(last);
    assert(s@.subrange(0, n as int) =~= s@);
    assert(strings_view(pieces@) =~= before + seq![s@.subrange(start as int, n as int)]);
    pieces
}

/// A column name in the form in which it is matched.
pub open spec fn normalized(name: Seq<char>) -> Seq<char> {
    trimmed_of(lowercase_of(name))
}

/// Whether a piece of a column list names a column.
pub open spec fn is_column_name(name: Seq<char>) -> bool {
    exists|c: Column| names_column(normalized(name), c)
}

/// Reads a comma-separated list of column names. The result is the columns
/// in order, or the error of the first name that no column has.
pub fn parse_columns(list: &str) -> (r: Result<Vec<Column>, ColumnError>)
    ensures
        match r {
            Ok(cols) => {
                &&& cols@.len() == split_on(list@, ',').len()
                &&& forall|i: int|
                    0 <= i < cols@.len() ==> names_column(
                        normalized(split_on(list@, ',')[i]),
                        #[trigger] cols@[i],
                    )
            },
            Err(e) => exists|i: int|
                0 <= i < split_on(list@, ',').len() && (forall|j: int|
                    0 <= j < i ==> is_column_name(#[trigger] split_on(list@, ',')[j])) && parses_as(
                    normalized(split_on(list@, ',')[i]),
                    Err(e),
                ),
        },
{
    let pieces = split_text(list, ',');
    let ghost names = split_on(list@, ',');
    let n = pieces.len();
    let mut cols: Vec<Column> = Vec::new();
    let mut i: usize = 0;
    while i < n
        invariant
            n == pieces@.len(),
            strings_view(pieces@) == names,
            names == split_on(list@, ','),
            i <= n,
            cols@.len() == i,
            forall|j: int| 0 <= j < i ==> names_column(normalized(names[j]), #[trigger] cols@[j]),
        decreases n - i,
    {
        assert(names[i as int] == pieces@[i as int]@);
        match Column::from_str(pieces[i].as_str()) {
            Ok(c) => {
                cols.push(c);
            },
            Err(e) => {
                assert forall|j: int| 0 <= j < i implies is_column_name(#[trigger] names[j]) by {
                    assert(names_column(normalized(names[j]), cols@[j]));
                }
                return Err(e);
            },
        }
        i = i + 1;
    }
    Ok(cols)
}

/// Reads a `KEY=VALUE` filter: the key is what comes before the first `=`,
/// the value all that follows it. `None` when there is no `=`.
pub fn parse_tag_filter(s: &str) -> (r: Option<(String, String)>)
    ensures
        r is None <==> !s@.contains('='),
        r matches Some((k, v)) ==> k@ + seq!['='] + v@ == s@ && !k@.contains('='),
{
    let n = s.unicode_len();
    let mut i: usize = 0;
    while i < n
        invariant
            n == s@.len(),
            i <= n,
            forall|j: int| 0 <= j < i ==> s@[j] != '=',
        decreases n - i,
    {
        if s.get_char(i) == '=' {
            let k = s.substring_char(0, i).to_owned();
            let v = s.substring_char(i + 1, n).to_owned();
            assert(k@ + seq!['='] + v@ =~= s@);
            assert(!k@.contains('=')) by {
                if k@.contains('=') {
                    let j = choose|j: int| 0 <= j < k@.len() && k@[j] == '=';
                    assert(s@[j] == '=');
                }
            }
            return Some((k, v));
        }
        i = i + 1;
    }
    None
}

} // verus!
