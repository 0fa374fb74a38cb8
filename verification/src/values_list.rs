//! `VALUES` lists.
use vstd::prelude::*;
use crate::cast::{cast, try_cast};
use crate::cells::{cell, cell_at, clone_rows};
use crate::facts::{list_outcome, Facts, Halt, Known, Stop};
use crate::plan_types::ScalarExpr;
use crate::rows::{row_views, QueryOutput, Row};
use crate::set_ops::{select_tag, select_tag_text};
use crate::subqueries::{column_values, eval_column};
use crate::table_functions::rows_result;
use crate::text::{concat2, decimal, size_text, texts};
use crate::value::{clone_values, rows_view, vals, Val, Value};

verus! {

/// The kinds of cell that decide a column's type.
#[derive(Debug, Clone, Copy, PartialEq, Eq, Structural)]
pub enum CellKind {
    Float,
    Numeric,
    Int,
    /// An integer beyond 32 bits.
    WideInt,
}

/// Whether a value is of a kind.
pub open spec fn is_kind(v: Val, kind: CellKind) -> bool {
    match kind {
        CellKind::Float => v is Float,
        CellKind::Numeric => v is Numeric,
        CellKind::Int => v is Int,
        CellKind::WideInt => v is Int && !(i32::MIN <= v->Int_0 <= i32::MAX),
    }
}

/// Whether a column has a cell of a kind.
pub open spec fn has_kind(rows: Seq<Seq<Val>>, column: int, kind: CellKind) -> bool {
    exists|i: int| 0 <= i < rows.len() && is_kind(cell(#[trigger] rows[i], column), kind)
}

fn value_is_kind(v: &Value, kind: CellKind) -> (r: bool)
    ensures
        r == is_kind(v@, kind),
{
    match (kind, v) {
        (CellKind::Float, Value::Float(_)) => true,
        (CellKind::Numeric, Value::Numeric(_)) => true,
        (CellKind::Int, Value::Int(_)) => true,
        (CellKind::WideInt, Value::Int(i)) => *i < -2147483648 || *i > 2147483647,
        _ => false,
    }
}

fn column_has_kind(rows: &Vec<Vec<Value>>, column: usize, kind: CellKind) -> (r: bool)
    ensures
        r == has_kind(rows_view(rows@), column as int, kind),
{
    let ghost view = rows_view(rows@);
    let mut i: usize = 0;
    while i < rows.len()
        invariant
            i <= rows@.len(),
            view == rows_view(rows@),
            forall|j: int| 0 <= j < i ==> !is_kind(cell(#[trigger] view[j], column as int), kind),
        decreases rows@.len() - i,
    {
        assert(view[i as int] == vals(rows@[i as int]@));
        let v = cell_at(&rows[i], column);
        if value_is_kind(&v, kind) {
            return true;
        }
        i = i + 1;
    }
    false
}

/// The first cell of a column, from row `i` on, that is not NULL.
pub open spec fn first_present(rows: Seq<Seq<Val>>, column: int, i: int) -> Val
    decreases rows.len() - i,
{
    if i < 0 || i >= rows.len() {
        Val::Null
    } else if cell(rows[i], column) != Val::Null {
        cell(rows[i], column)
    } else {
        first_present(rows, column, i + 1)
    }
}

fn find_present(rows: &Vec<Vec<Value>>, column: usize) -> (r: Value)
    ensures
        r@ == first_present(rows_view(rows@), column as int, 0),
{
    let ghost view = rows_view(rows@);
    let mut i: usize = 0;
    while i < rows.len()
        invariant
            i <= rows@.len(),
            view == rows_view(rows@),
            first_present(view, column as int, 0) == first_present(view, column as int, i as int),
        decreases rows@.len() - i,
    {
        assert(view[i as int] == vals(rows@[i as int]@));
        let v = cell_at(&rows[i], column);
        if !v.is_null() {
            return v;
        }
        i = i + 1;
    }
    Value::Null
}

/// The one type of a column: the widest number in it, else the type of its
/// first value.
pub open spec fn unified_type(rows: Seq<Seq<Val>>, column: int) -> Seq<char> {
    if has_kind(rows, column, CellKind::Float) {
        "DOUBLE PRECISION"@
    } else if has_kind(rows, column, CellKind::Numeric) {
        "NUMERIC"@
    } else if has_kind(rows, column, CellKind::WideInt) {
        "BIGINT"@
    } else if has_kind(rows, column, CellKind::Int) {
        "INTEGER"@
    } else {
        match first_present(rows, column, 0) {
            Val::Bool(_) => "BOOLEAN"@,
            Val::Jsonb(_) => "JSONB"@,
            Val::Array(_) => "TEXT[]"@,
            _ => "TEXT"@,
        }
    }
}

/// Whether a column's values are converted to its type.
pub open spec fn is_converted(rows: Seq<Seq<Val>>, column: int) -> bool {
    ||| has_kind(rows, column, CellKind::Float)
    ||| has_kind(rows, column, CellKind::Numeric)
    ||| has_kind(rows, column, CellKind::Int)
    ||| first_present(rows, column, 0) is Bool
}

/// A row with one cell converted.
pub open spec fn converted_row(row: Seq<Val>, column: int, target: Seq<char>, k: Known) -> Result<
    Seq<Val>,
    Stop,
> {
    if 0 <= column < row.len() && row[column] != Val::Null {
        match cast(row[column], target, k) {
            Ok(v) => Ok(row.update(column, v)),
            Err(Stop::Raised(m)) => Err(
                Stop::Raised("VALUES types cannot be matched: "@ + m),
            ),
            Err(s) => Err(s),
        }
    } else {
        Ok(row)
    }
}

/// Rows with one column converted.
pub open spec fn converted(rows: Seq<Seq<Val>>, column: int, target: Seq<char>, k: Known) -> Result<
    Seq<Seq<Val>>,
    Stop,
>
    decreases rows.len(),
{
    if rows.len() == 0 {
        Ok(Seq::empty())
    } else {
        match converted(rows.drop_last(), column, target, k) {
            Err(s) => Err(s),
            Ok(done) => match converted_row(rows.last(), column, target, k) {
                Err(s) => Err(s),
                Ok(row) => Ok(done.push(row)),
            },
        }
    }
}

proof fn lemma_converted_fails(
    rows: Seq<Seq<Val>>,
    column: int,
    target: Seq<char>,
    n: int,
    k: Known,
)
    requires
        0 <= n <= rows.len(),
        converted(rows.take(n), column, target, k) is Err,
    ensures
        converted(rows, column, target, k) == converted(rows.take(n), column, target, k),
    decreases rows.len(),
{
    if n < rows.len() {
        assert(rows.drop_last().take(n) =~= rows.take(n));
        lemma_converted_fails(rows.drop_last(), column, target, n, k);
    } else {
        assert(rows.take(n) =~= rows);
    }
}

fn convert_row(row: &Vec<Value>, column: usize, target: &str, facts: &Facts) -> (r: Result<
    Vec<Value>,
    Halt,
>)
    ensures
        list_outcome(r) == converted_row(vals(row@), column as int, target@, facts@),
{
    let mut out = clone_values(row);
    if column < out.len() && !out[column].is_null() {
        assert(vals(row@)[column as int] == out@[column as int]@);
        match try_cast(&out[column], target, facts) {
            Ok(v) => {
                let ghost before = out@;
                out.set(column, v);
                assert(vals(out@) =~= vals(before).update(column as int, v@));
            },
            Err(h) => {
                return match h {
                    Halt::Raised(m) => Err(
                        Halt::Raised(concat2("VALUES types cannot be matched: ", m.as_str())),
                    ),
                    other => Err(other),
                };
            },
        }
    } else {
        assert(column < row@.len() ==> vals(row@)[column as int] == vals(out@)[column as int]);
    }
    Ok(out)
}

/// Converts every value of a column to the given type.
pub fn convert_all(rows: &Vec<Vec<Value>>, column: usize, target: &str, facts: &Facts) -> (r:
    Result<Vec<Vec<Value>>, Halt>)
    ensures
        rows_result(r) == converted(rows_view(rows@), column as int, target@, facts@),
{
    let ghost all = rows_view(rows@);
    let mut out: Vec<Vec<Value>> = Vec::new();
    let mut i: usize = 0;
    assert(all.take(0) =~= Seq::<Seq<Val>>::empty());
    assert(rows_view(out@) =~= Seq::<Seq<Val>>::empty());
    while i < rows.len()
        invariant
            i <= rows@.len(),
            all == rows_view(rows@),
            converted(all.take(i as int), column as int, target@, facts@) == Ok::<
                Seq<Seq<Val>>,
                Stop,
            >(rows_view(out@)),
        decreases rows@.len() - i,
    {
        assert(all.take(i + 1).drop_last() =~= all.take(i as int));
        assert(all.take(i + 1).last() == vals(rows@[i as int]@));
        match convert_row(&rows[i], column, target, facts) {
            Err(h) => {
                proof {
                    lemma_converted_fails(all, column as int, target@, i + 1, facts@);
                }
                return Err(h);
            },
            Ok(row) => {
                let ghost before = out@;
                out.push(row);
                assert(rows_view(out@) =~= rows_view(before).push(vals(row@)));
            },
        }
        i = i + 1;
    }
    assert(all.take(i as int) =~= all);
    Ok(out)
}

/// One column given its type: the type, and the rows with the column
/// converted.
pub open spec fn unified(rows: Seq<Seq<Val>>, column: int, k: Known) -> Result<
    (Seq<char>, Seq<Seq<Val>>),
    Stop,
> {
    let target = unified_type(rows, column);
    if is_converted(rows, column) {
        match converted(rows, column, target, k) {
            Ok(out) => Ok((target, out)),
            Err(s) => Err(s),
        }
    } else {
        Ok((target, rows))
    }
}

/// What a unified column stands for.
pub open spec fn unified_outcome(r: Result<(String, Vec<Vec<Value>>), Halt>) -> Result<
    (Seq<char>, Seq<Seq<Val>>),
    Stop,
> {
    match r {
        Ok((t, rows)) => Ok((t@, rows_view(rows@))),
        Err(h) => Err(h@),
    }
}

/// Resolves one `VALUES` column to a single type, converting its values: text
/// literals take the column's type, integers widen to numeric or float, and
/// types that cannot be matched are an error.
pub fn unify_column(rows: &Vec<Vec<Value>>, column: usize, facts: &Facts) -> (r: Result<
    (String, Vec<Vec<Value>>),
    Halt,
>)
    ensures
        unified_outcome(r) == unified(rows_view(rows@), column as int, facts@),
{
    let ghost view = rows_view(rows@);
    let wide: bool = column_has_kind(rows, column, CellKind::WideInt);
    proof {
        if wide {
            let i = choose|i: int|
                0 <= i < view.len() && is_kind(
                    cell(#[trigger] view[i], column as int),
                    CellKind::WideInt,
                );
            assert(is_kind(cell(view[i], column as int), CellKind::Int));
        }
    }
    let target: &str = if column_has_kind(rows, column, CellKind::Float) {
        "DOUBLE PRECISION"
    } else if column_has_kind(rows, column, CellKind::Numeric) {
        "NUMERIC"
    } else if wide {
        "BIGINT"
    } else if column_has_kind(rows, column, CellKind::Int) {
        "INTEGER"
    } else {
        match find_present(rows, column) {
            Value::Bool(_) => "BOOLEAN",
            Value::Jsonb(_) => {
                return Ok(("JSONB".to_owned(), clone_rows(rows)));
            },
            Value::Array(_) => {
                return Ok(("TEXT[]".to_owned(), clone_rows(rows)));
            },
            _ => {
                return Ok(("TEXT".to_owned(), clone_rows(rows)));
            },
        }
    };
    match convert_all(rows, column, target, facts) {
        Ok(out) => Ok((target.to_owned(), out)),
        Err(h) => Err(h),
    }
}

/// The first `n` columns given their types, one after the other.
pub open spec fn all_unified(rows: Seq<Seq<Val>>, n: nat, k: Known) -> Result<
    (Seq<Seq<char>>, Seq<Seq<Val>>),
    Stop,
>
    decreases n,
{
    if n == 0 {
        Ok((Seq::empty(), rows))
    } else {
        match all_unified(rows, (n - 1) as nat, k) {
            Err(s) => Err(s),
            Ok((types, out)) => match unified(out, n - 1, k) {
                Err(s) => Err(s),
                Ok((t, next)) => Ok((types.push(t), next)),
            },
        }
    }
}

proof fn lemma_all_unified_fails(rows: Seq<Seq<Val>>, n: nat, m: nat, k: Known)
    requires
        n <= m,
        all_unified(rows, n, k) is Err,
    ensures
        all_unified(rows, m, k) == all_unified(rows, n, k),
    decreases m,
{
    if n < m {
        lemma_all_unified_fails(rows, n, (m - 1) as nat, k);
    }
}

/// Rows of expressions.
pub open spec fn expr_rows(s: Seq<Vec<ScalarExpr>>) -> Seq<Seq<ScalarExpr>> {
    Seq::new(s.len(), |i: int| s[i]@)
}

/// The values of the first `n` expressions of a row.
pub open spec fn item_values(items: Seq<ScalarExpr>, n: nat, k: Known) -> Result<Seq<Val>, Stop>
    decreases n,
{
    if n == 0 {
        Ok(Seq::empty())
    } else {
        match item_values(items, (n - 1) as nat, k) {
            Err(s) => Err(s),
            Ok(done) => match column_values(
                items[n - 1],
                Seq::empty(),
                seq![Seq::empty()],
                k,
            ) {
                Err(s) => Err(s),
                Ok(v) => Ok(done.push(cell(v, 0))),
            },
        }
    }
}

proof fn lemma_item_values_fail(items: Seq<ScalarExpr>, n: nat, m: nat, k: Known)
    requires
        n <= m,
        item_values(items, n, k) is Err,
    ensures
        item_values(items, m, k) == item_values(items, n, k),
    decreases m,
{
    if n < m {
        lemma_item_values_fail(items, n, (m - 1) as nat, k);
    }
}

fn eval_items(items: &Vec<ScalarExpr>, facts: &Facts) -> (r: Result<Vec<Value>, Halt>)
    ensures
        list_outcome(r) == item_values(items@, items@.len(), facts@),
{
    let names: Vec<String> = Vec::new();
    let empty: Vec<Value> = Vec::new();
    assert(texts(names@) =~= Seq::<Seq<char>>::empty());
    assert(vals(empty@) =~= Seq::<Val>::empty());
    let rows: Vec<Vec<Value>> = vec![empty];
    assert(rows_view(rows@) =~= seq![Seq::<Val>::empty()]);
    let mut out: Vec<Value> = Vec::new();
    let mut i: usize = 0;
    assert(vals(out@) =~= Seq::<Val>::empty());
    while i < items.len()
        invariant
            i <= items@.len(),
            texts(names@) == Seq::<Seq<char>>::empty(),
            rows_view(rows@) == seq![Seq::<Val>::empty()],
            item_values(items@, i as nat, facts@) == Ok::<Seq<Val>, Stop>(vals(out@)),
        decreases items@.len() - i,
    {
        match eval_column(&items[i], &names, &rows, facts) {
            Err(h) => {
                proof {
                    lemma_item_values_fail(items@, (i + 1) as nat, items@.len(), facts@);
                }
                return Err(h);
            },
            Ok(v) => {
                let ghost before = out@;
                let first = cell_at(&v, 0);
                out.push(first);
                assert(vals(out@) =~= vals(before).push(first@));
            },
        }
        i = i + 1;
    }
    Ok(out)
}

/// The values of the first `n` rows of expressions.
pub open spec fn list_values(rows: Seq<Seq<ScalarExpr>>, n: nat, k: Known) -> Result<
    Seq<Seq<Val>>,
    Stop,
>
    decreases n,
{
    if n == 0 {
        Ok(Seq::empty())
    } else {
        match list_values(rows, (n - 1) as nat, k) {
            Err(s) => Err(s),
            Ok(done) => match item_values(rows[n - 1], rows[n - 1].len(), k) {
                Err(s) => Err(s),
                Ok(row) => Ok(done.push(row)),
            },
        }
    }
}

proof fn lemma_list_values_fail(rows: Seq<Seq<ScalarExpr>>, n: nat, m: nat, k: Known)
    requires
        n <= m,
        list_values(rows, n, k) is Err,
    ensures
        list_values(rows, m, k) == list_values(rows, n, k),
    decreases m,
{
    if n < m {
        lemma_list_values_fail(rows, n, (m - 1) as nat, k);
    }
}

fn eval_list_rows(rows: &Vec<Vec<ScalarExpr>>, facts: &Facts) -> (r: Result<Vec<Vec<Value>>, Halt>)
    ensures
        rows_result(r) == list_values(expr_rows(rows@), rows@.len(), facts@),
{
    let ghost all = expr_rows(rows@);
    let mut out: Vec<Vec<Value>> = Vec::new();
    let mut i: usize = 0;
    assert(rows_view(out@) =~= Seq::<Seq<Val>>::empty());
    while i < rows.len()
        invariant
            i <= rows@.len(),
            all == expr_rows(rows@),
            list_values(all, i as nat, facts@) == Ok::<Seq<Seq<Val>>, Stop>(rows_view(out@)),
        decreases rows@.len() - i,
    {
        assert(all[i as int] == rows@[i as int]@);
        match eval_items(&rows[i], facts) {
            Err(h) => {
                proof {
                    lemma_list_values_fail(all, (i + 1) as nat, rows@.len(), facts@);
                }
                return Err(h);
            },
            Ok(row) => {
                let ghost before = out@;
                out.push(row);
                assert(rows_view(out@) =~= rows_view(before).push(vals(row@)));
            },
        }
        i = i + 1;
    }
    Ok(out)
}

/// The number of columns of a `VALUES` list: those of its first row.
pub open spec fn list_width(rows: Seq<Seq<ScalarExpr>>) -> nat {
    if rows.len() == 0 {
        0
    } else {
        rows[0].len()
    }
}

/// The names of the columns of a `VALUES` list.
pub open spec fn list_columns(n: nat) -> Seq<Seq<char>> {
    Seq::new(n, |i: int| "column"@ + decimal(i + 1))
}

fn list_column_names(n: usize) -> (r: Vec<String>)
    ensures
        texts(r@) == list_columns(n as nat),
{
    let mut out: Vec<String> = Vec::new();
    let mut i: usize = 0;
    while i < n
        invariant
            i <= n,
            out@.len() == i,
            forall|j: int| 0 <= j < i ==> (#[trigger] out@[j])@ == "column"@ + decimal(j + 1),
        decreases n - i,
    {
        let number = size_text(i + 1);
        out.push(concat2("column", number.as_str()));
        i = i + 1;
    }
    assert(texts(out@) =~= list_columns(n as nat));
    out
}

/// A `VALUES` list: each row's expressions evaluated, and each column given
/// one type across the rows, as PostgreSQL resolves it.
pub fn exec_values(rows: &Vec<Vec<ScalarExpr>>, facts: &Facts) -> (r: Result<QueryOutput, Halt>)
    ensures
        ({
            let width = list_width(expr_rows(rows@));
            match list_values(expr_rows(rows@), rows@.len(), facts@) {
                Err(s) => r is Err && r->Err_0@ == s,
                Ok(values) => match all_unified(values, width, facts@) {
                    Err(s) => r is Err && r->Err_0@ == s,
                    Ok((types, out)) => {
                        &&& r is Ok
                        &&& texts(r->Ok_0.columns@) == list_columns(width)
                        &&& texts(r->Ok_0.types@) == types
                        &&& row_views(r->Ok_0.rows@) == out
                        &&& r->Ok_0.tag@ == select_tag(out.len())
                    },
                },
            }
        }),
{
    let width: usize = if rows.len() == 0 {
        0
    } else {
        rows[0].len()
    };
    assert(width == list_width(expr_rows(rows@)));
    let mut values = match eval_list_rows(rows, facts) {
        Ok(v) => v,
        Err(h) => {
            return Err(h);
        },
    };
    let ghost start = rows_view(values@);
    let mut types: Vec<String> = Vec::new();
    let mut column: usize = 0;
    assert(texts(types@) =~= Seq::<Seq<char>>::empty());
    while column < width
        invariant
            column <= width,
            width == list_width(expr_rows(rows@)),
            list_values(expr_rows(rows@), rows@.len(), facts@) == Ok::<Seq<Seq<Val>>, Stop>(start),
            all_unified(start, column as nat, facts@) == Ok::<
                (Seq<Seq<char>>, Seq<Seq<Val>>),
                Stop,
            >((texts(types@), rows_view(values@))),
        decreases width - column,
    {
        match unify_column(&values, column, facts) {
            Err(h) => {
                proof {
                    lemma_all_unified_fails(start, (column + 1) as nat, width as nat, facts@);
                }
                return Err(h);
            },
            Ok((t, next)) => {
                let ghost before = types@;
                types.push(t);
                assert(texts(types@) =~= texts(before).push(t@));
                values = next;
            },
        }
        column = column + 1;
    }
    let tag = select_tag_text(values.len());
    let mut out: Vec<Row> = Vec::new();
    let mut i: usize = 0;
    while i < values.len()
        invariant
            i <= values@.len(),
            out@.len() == i,
            forall|j: int| 0 <= j < i ==> (#[trigger] out@[j])@ == vals(values@[j]@),
        decreases values@.len() - i,
    {
        out.push(Row { values: clone_values(&values[i]) });
        i = i + 1;
    }
    assert(row_views(out@) =~= rows_view(values@));
    Ok(QueryOutput { columns: list_column_names(width), types, rows: out, tag })
}

} // verus!
