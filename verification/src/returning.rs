//! The row that a `RETURNING` list makes of one changed row.
//!
//! An inserted row has no row before the change, a deleted one none after it;
//! the missing row reads as NULLs. A column without a qualifier means the row
//! after the change, or the deleted row.
use vstd::prelude::*;
use crate::arrange::no_such_column;
use crate::cells::{concat_rows, null_row, nulls};
use crate::facts::{list_outcome, Facts, Halt, Known, Stop};
use crate::join::{concat_texts, prefix_names, prefixed};
use crate::plan_types::ReturningExpr;
use crate::subqueries::{column_values, eval_column};
use crate::text::{concat3, index_of, position_of, same_text, texts};
use crate::value::{clone_values, rows_view, vals, Val, Value};

verus! {

/// A row that may be missing.
pub open spec fn opt_row(row: Option<Vec<Value>>) -> Option<Seq<Val>> {
    match row {
        Some(r) => Some(vals(r@)),
        None => None,
    }
}

/// A row, or NULLs where there is none.
pub open spec fn row_or_nulls(row: Option<Seq<Val>>, width: nat) -> Seq<Val> {
    match row {
        Some(r) => r,
        None => nulls(width),
    }
}

/// The row that a column without a qualifier means.
pub open spec fn current_row(old: Option<Seq<Val>>, new: Option<Seq<Val>>, width: nat) -> Seq<Val> {
    match new {
        Some(r) => r,
        None => row_or_nulls(old, width),
    }
}

/// The names that an expression can use: each column without a qualifier, in
/// the row before the change, and in the row after it.
pub open spec fn change_names(columns: Seq<Seq<char>>) -> Seq<Seq<char>> {
    columns + prefixed("old"@, columns) + prefixed("new"@, columns)
}

/// The cells under [`change_names`].
pub open spec fn change_cells(old: Option<Seq<Val>>, new: Option<Seq<Val>>, width: nat) -> Seq<
    Val,
> {
    current_row(old, new, width) + row_or_nulls(old, width) + row_or_nulls(new, width)
}

/// The expression of an item: none for a plain column, and none at all where
/// every item is one.
pub open spec fn item_expr(found: Seq<Option<ReturningExpr>>, i: int) -> Option<ReturningExpr> {
    if 0 <= i < found.len() {
        found[i]
    } else {
        None
    }
}

/// The names of the columns that the items from position `i` on make.
pub open spec fn output_names_from(
    items: Seq<Seq<char>>,
    found: Seq<Option<ReturningExpr>>,
    columns: Seq<Seq<char>>,
    i: nat,
    before: Seq<Seq<char>>,
) -> Seq<Seq<char>>
    decreases items.len() - i,
{
    if i >= items.len() {
        before
    } else if item_expr(found, i as int) is None && items[i as int] == "*"@ {
        output_names_from(items, found, columns, i + 1, before + columns)
    } else {
        output_names_from(items, found, columns, i + 1, before.push(items[i as int]))
    }
}

/// The names of the columns that a `RETURNING` list makes.
pub fn returned_columns(
    items: &Vec<String>,
    found: &Vec<Option<ReturningExpr>>,
    columns: &Vec<String>,
) -> (r: Vec<String>)
    ensures
        texts(r@) == output_names_from(texts(items@), found@, texts(columns@), 0, Seq::empty()),
{
    let mut out: Vec<String> = Vec::new();
    assert(texts(out@) =~= Seq::<Seq<char>>::empty());
    let mut i: usize = 0;
    while i < items.len()
        invariant
            i <= items@.len(),
            output_names_from(texts(items@), found@, texts(columns@), 0, Seq::empty())
                == output_names_from(
                texts(items@),
                found@,
                texts(columns@),
                i as nat,
                texts(out@),
            ),
        decreases items@.len() - i,
    {
        assert(texts(items@)[i as int] == items@[i as int]@);
        let plain: bool = i >= found.len() || found[i].is_none();
        if plain && same_text(items[i].as_str(), "*") {
            out = concat_texts(&out, columns);
        } else {
            let ghost before = out@;
            out.push(items[i].clone());
            assert(texts(out@) =~= texts(before).push(items@[i as int]@));
        }
        i = i + 1;
    }
    out
}

/// The cells that one item makes.
pub open spec fn item_cells(
    item: Seq<char>,
    x: Option<ReturningExpr>,
    columns: Seq<Seq<char>>,
    old: Option<Seq<Val>>,
    new: Option<Seq<Val>>,
    k: Known,
) -> Result<Seq<Val>, Stop> {
    match x {
        Some(e) => column_values(
            e.expr,
            change_names(columns),
            seq![change_cells(old, new, columns.len())],
            k,
        ),
        None => if item == "*"@ {
            Ok(current_row(old, new, columns.len()))
        } else {
            match index_of(columns, item) {
                Some(at) => Ok(seq![current_row(old, new, columns.len())[at]]),
                None => Err(no_such_column(item)),
            }
        },
    }
}

/// The cells that the items from position `i` on make.
pub open spec fn returned_cells(
    items: Seq<Seq<char>>,
    found: Seq<Option<ReturningExpr>>,
    columns: Seq<Seq<char>>,
    old: Option<Seq<Val>>,
    new: Option<Seq<Val>>,
    i: nat,
    before: Seq<Val>,
    k: Known,
) -> Result<Seq<Val>, Stop>
    decreases items.len() - i,
{
    if i >= items.len() {
        Ok(before)
    } else {
        match item_cells(items[i as int], item_expr(found, i as int), columns, old, new, k) {
            Err(s) => Err(s),
            Ok(cells) => returned_cells(items, found, columns, old, new, i + 1, before + cells, k),
        }
    }
}

fn read_row(row: &Option<Vec<Value>>, width: usize) -> (r: Vec<Value>)
    ensures
        vals(r@) == row_or_nulls(opt_row(*row), width as nat),
{
    match row {
        Some(cells) => clone_values(cells),
        None => null_row(width),
    }
}

fn read_current(old: &Option<Vec<Value>>, new: &Option<Vec<Value>>, width: usize) -> (r: Vec<Value>)
    ensures
        vals(r@) == current_row(opt_row(*old), opt_row(*new), width as nat),
{
    match new {
        Some(cells) => clone_values(cells),
        None => read_row(old, width),
    }
}

fn eval_item(
    item: &String,
    x: Option<&ReturningExpr>,
    columns: &Vec<String>,
    old: &Option<Vec<Value>>,
    new: &Option<Vec<Value>>,
    facts: &Facts,
) -> (r: Result<Vec<Value>, Halt>)
    requires
        old matches Some(cells) ==> cells@.len() == columns@.len(),
        new matches Some(cells) ==> cells@.len() == columns@.len(),
    ensures
        list_outcome(r) == item_cells(
            item@,
            match x {
                Some(e) => Some(*e),
                None => None,
            },
            texts(columns@),
            opt_row(*old),
            opt_row(*new),
            facts@,
        ),
{
    let current = read_current(old, new, columns.len());
    assert(texts(columns@).len() == columns@.len());
    match x {
        Some(e) => {
            let olds = prefix_names("old", columns);
            let news = prefix_names("new", columns);
            let firsts = concat_texts(columns, &olds);
            let names = concat_texts(&firsts, &news);
            let before = read_row(old, columns.len());
            let after = read_row(new, columns.len());
            let cells = concat_rows(&current, &before);
            let whole: Vec<Vec<Value>> = vec![concat_rows(&cells, &after)];
            assert(rows_view(whole@) =~= seq![
                change_cells(opt_row(*old), opt_row(*new), columns@.len()),
            ]);
            eval_column(&e.expr, &names, &whole, facts)
        },
        None => {
            if same_text(item.as_str(), "*") {
                return Ok(current);
            }
            match position_of(columns, item.as_str()) {
                Some(at) => {
                    assert(vals(current@).len() == current@.len());
                    let out: Vec<Value> = vec![current[at].duplicate()];
                    assert(vals(out@) =~= seq![vals(current@)[at as int]]);
                    Ok(out)
                },
                None => Err(
                    Halt::Raised(concat3("column \"", item.as_str(), "\" does not exist")),
                ),
            }
        },
    }
}

/// The row that a `RETURNING` list makes of a row before and after a change.
pub fn returned_row(
    items: &Vec<String>,
    found: &Vec<Option<ReturningExpr>>,
    columns: &Vec<String>,
    old: &Option<Vec<Value>>,
    new: &Option<Vec<Value>>,
    facts: &Facts,
) -> (r: Result<Vec<Value>, Halt>)
    requires
        old matches Some(cells) ==> cells@.len() == columns@.len(),
        new matches Some(cells) ==> cells@.len() == columns@.len(),
    ensures
        list_outcome(r) == returned_cells(
            texts(items@),
            found@,
            texts(columns@),
            opt_row(*old),
            opt_row(*new),
            0,
            Seq::empty(),
            facts@,
        ),
{
    let mut out: Vec<Value> = Vec::new();
    assert(vals(out@) =~= Seq::<Val>::empty());
    let mut i: usize = 0;
    while i < items.len()
        invariant
            i <= items@.len(),
            old matches Some(cells) ==> cells@.len() == columns@.len(),
            new matches Some(cells) ==> cells@.len() == columns@.len(),
            returned_cells(
                texts(items@),
                found@,
                texts(columns@),
                opt_row(*old),
                opt_row(*new),
                0,
                Seq::empty(),
                facts@,
            ) == returned_cells(
                texts(items@),
                found@,
                texts(columns@),
                opt_row(*old),
                opt_row(*new),
                i as nat,
                vals(out@),
                facts@,
            ),
        decreases items@.len() - i,
    {
        assert(texts(items@)[i as int] == items@[i as int]@);
        let x: Option<&ReturningExpr> = if i < found.len() {
            match &found[i] {
                Some(e) => Some(e),
                None => None,
            }
        } else {
            None
        };
        match eval_item(&items[i], x, columns, old, new, facts) {
            Err(h) => {
                return Err(h);
            },
            Ok(cells) => {
                out = concat_rows(&out, &cells);
            },
        }
        i = i + 1;
    }
    Ok(out)
}

/// A plain column of an inserted or updated row is that of the row after the
/// change, and of a deleted row that of the row before it.
pub proof fn law_a_plain_column_reads_the_surviving_row(
    item: Seq<char>,
    columns: Seq<Seq<char>>,
    old: Option<Seq<Val>>,
    new: Option<Seq<Val>>,
    at: int,
    k: Known,
)
    requires
        index_of(columns, item) == Some(at),
        item != "*"@,
        old is Some || new is Some,
    ensures
        item_cells(item, None, columns, old, new, k) == Ok::<Seq<Val>, Stop>(
            seq![
                match new {
                    Some(row) => row[at],
                    None => old->Some_0[at],
                },
            ],
        ),
{
}

/// Under `old.c` an expression reads the row before the change, under `new.c`
/// the row after it: NULL where there is no such row, as before an insertion
/// and after a deletion.
pub proof fn law_old_and_new_name_the_two_rows(
    columns: Seq<Seq<char>>,
    old: Option<Seq<Val>>,
    new: Option<Seq<Val>>,
    c: int,
)
    requires
        0 <= c < columns.len(),
        old matches Some(row) ==> row.len() == columns.len(),
        new matches Some(row) ==> row.len() == columns.len(),
    ensures
        ({
            let w = columns.len() as int;
            let names = change_names(columns);
            let cells = change_cells(old, new, columns.len());
            &&& names.len() == cells.len()
            &&& names[c] == columns[c]
            &&& names[w + c] == "old"@ + "."@ + columns[c]
            &&& names[2 * w + c] == "new"@ + "."@ + columns[c]
            &&& cells[w + c] == match old {
                Some(row) => row[c],
                None => Val::Null,
            }
            &&& cells[2 * w + c] == match new {
                Some(row) => row[c],
                None => Val::Null,
            }
            &&& cells[c] == match (new, old) {
                (Some(row), _) => row[c],
                (None, Some(row)) => row[c],
                (None, None) => Val::Null,
            }
        }),
{
}

} // verus!
