//! Names of columns, relations, and objects.
use vstd::prelude::*;
use crate::text::{
    concat2, ends, ends_with, same_text, split, split_text, strip_both, strip_end, strip_start,
    texts,
};

verus! {

/// The part of a name after its last dot.
pub open spec fn unqualified(name: Seq<char>) -> Seq<char> {
    split(name, '.').last()
}

/// The part of a name after its last dot.
pub fn unqualify(name: &str) -> (r: String)
    ensures
        r@ == unqualified(name@),
{
    let parts = split_text(name, '.');
    let n: usize = parts.len();
    assert(texts(parts@).len() == n);
    assert(texts(parts@)[n - 1] == parts@[n - 1]@);
    parts[n - 1].clone()
}

/// Whether a qualified column name is the one a reference means: the name
/// itself, or its last parts.
pub open spec fn names_column(column: Seq<char>, reference: Seq<char>) -> bool {
    column == reference || ends(column, "."@ + reference)
}

/// The first column that a reference means.
pub open spec fn column_of(columns: Seq<Seq<char>>, reference: Seq<char>) -> Option<int>
    decreases columns.len(),
{
    if columns.len() == 0 {
        None
    } else {
        match column_of(columns.drop_last(), reference) {
            Some(i) => Some(i),
            None => if names_column(columns.last(), reference) {
                Some(columns.len() - 1)
            } else {
                None
            },
        }
    }
}

/// What [`column_of`] finds: the least position that the reference means.
pub proof fn lemma_column_of(columns: Seq<Seq<char>>, reference: Seq<char>)
    ensures
        match column_of(columns, reference) {
            Some(i) => 0 <= i < columns.len() && names_column(columns[i], reference) && forall|
                k: int,
            |
                0 <= k < i ==> !names_column(#[trigger] columns[k], reference),
            None => forall|k: int|
                0 <= k < columns.len() ==> !names_column(#[trigger] columns[k], reference),
        },
    decreases columns.len(),
{
    if columns.len() > 0 {
        lemma_column_of(columns.drop_last(), reference);
        assert(forall|k: int| 0 <= k < columns.len() - 1 ==> columns.drop_last()[k] == columns[k]);
    }
}

/// The first column that a reference means.
pub fn find_column(columns: &Vec<String>, reference: &str) -> (r: Option<usize>)
    ensures
        match (r, column_of(texts(columns@), reference@)) {
            (Some(a), Some(b)) => a == b && a < columns@.len(),
            (None, None) => true,
            _ => false,
        },
{
    let suffix = concat2(".", reference);
    let mut i: usize = 0;
    while i < columns.len()
        invariant
            i <= columns@.len(),
            suffix@ == "."@ + reference@,
            forall|k: int| 0 <= k < i ==> !names_column(#[trigger] texts(columns@)[k], reference@),
        decreases columns@.len() - i,
    {
        assert(texts(columns@)[i as int] == columns@[i as int]@);
        if same_text(columns[i].as_str(), reference) || ends_with(
            columns[i].as_str(),
            suffix.as_str(),
        ) {
            proof {
                lemma_column_of(texts(columns@), reference@);
            }
            return Some(i);
        }
        i = i + 1;
    }
    proof {
        lemma_column_of(texts(columns@), reference@);
    }
    None
}

/// A part of an object name without the double quotes around it.
pub open spec fn bare_part(part: Seq<char>) -> Seq<char> {
    strip_end(strip_start(part, '"'), '"')
}

/// The database, schema, and object that a name means; `None` for a name of
/// more than three parts.
pub open spec fn object_path(name: Seq<char>) -> Option<(Seq<char>, Seq<char>, Seq<char>)> {
    let parts = split(name, '.');
    if parts.len() == 1 {
        Some(("default"@, "public"@, bare_part(parts[0])))
    } else if parts.len() == 2 {
        Some(("default"@, bare_part(parts[0]), bare_part(parts[1])))
    } else if parts.len() == 3 {
        Some((bare_part(parts[0]), bare_part(parts[1]), bare_part(parts[2])))
    } else {
        None
    }
}

/// The database, schema, and object that a name of up to three parts means.
pub fn parse_object_name(name: &str) -> (r: Result<(String, String, String), String>)
    ensures
        match (r, object_path(name@)) {
            (Ok((d, s, o)), Some((a, b, c))) => d@ == a && s@ == b && o@ == c,
            (Err(m), None) => m@ == "Invalid object name: "@ + name@,
            _ => false,
        },
{
    let parts = split_text(name, '.');
    let n: usize = parts.len();
    assert(texts(parts@).len() == n);
    assert(forall|i: int| 0 <= i < n ==> texts(parts@)[i] == parts@[i]@);
    if n == 1 {
        Ok(("default".to_owned(), "public".to_owned(), strip_both(parts[0].as_str(), '"')))
    } else if n == 2 {
        Ok(
            (
                "default".to_owned(),
                strip_both(parts[0].as_str(), '"'),
                strip_both(parts[1].as_str(), '"'),
            ),
        )
    } else if n == 3 {
        Ok(
            (
                strip_both(parts[0].as_str(), '"'),
                strip_both(parts[1].as_str(), '"'),
                strip_both(parts[2].as_str(), '"'),
            ),
        )
    } else {
        Err(concat2("Invalid object name: ", name))
    }
}

} // verus!
