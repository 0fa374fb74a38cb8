//! Set-returning table functions used in `FROM` (`unnest`, `generate_series`,
//! `jsonb_array_elements[_text]`, `regexp_split_to_table`), including multi-arg
//! `unnest` and `WITH ORDINALITY`. See [`eval_table_function`], which serves
//! both a function that stands alone and one evaluated per driving row.
use vstd::prelude::*;
use crate::cells::{
    cell, cell_at, concat_rows, names_val, names_value, null_row, nulls, row_with,
};
use crate::facts::{
    asked, list_outcome, on_one, outcome, Facts, Halt, Known, RequestView, Stop, Task, TaskView,
};
use crate::join::{concat_texts, relation_outcome, Rel, Relation};
use crate::json_text::{spaced, spaced_text};
use crate::plan_types::{Operand, ScalarExpr, TableFnSpec};
use crate::render::{render, shown};
use crate::rows::{QueryOutput, Row};
use crate::set_ops::{select_tag, select_tag_text};
use crate::subqueries::{column_values, eval_column};
use crate::text::{concat3, parse_int, parsed_int, same_text, texts, trim_text, trimmed};
use crate::value::{
    clone_values, group_value_views, jsons, rows_view, vals, Json, JsonView, Val, Value,
};

verus! {

broadcast use group_value_views;

// ---------------------------------------------------------------------------
// Trusted: splitting by a regular expression
// ---------------------------------------------------------------------------

/// The pieces of a text between the matches of a regular expression; `None`
/// where the expression is invalid.
pub uninterp spec fn regex_pieces(source: Seq<char>, text: Seq<char>) -> Option<Seq<Seq<char>>>;

/// What optional texts stand for.
pub open spec fn opt_texts(t: Option<Vec<String>>) -> Option<Seq<Seq<char>>> {
    match t {
        Some(v) => Some(texts(v@)),
        None => None,
    }
}

/// `regex::Regex::new` and `Regex::split`: the pieces of `text` between the
/// matches of the expression, which depend on the two texts alone; `None`
/// where the expression does not compile.
#[verifier::external_body]
pub(crate) fn regex_split(source: &str, text: &str) -> (r: Option<Vec<String>>)
    ensures
        opt_texts(r) == regex_pieces(source@, text@),
{
    regex::Regex::new(source).ok().map(|re| re.split(text).map(|s| s.to_string()).collect())
}

// ---------------------------------------------------------------------------
// Values
// ---------------------------------------------------------------------------

/// The integer a value stands for.
pub open spec fn as_int(v: Val, k: Known) -> Result<Option<i64>, Stop> {
    match v {
        Val::Int(i) => Ok(Some(i)),
        Val::Float(_) => match asked(k, on_one(TaskView::Truncate, v)) {
            Ok(Val::Int(i)) => Ok(Some(i)),
            Ok(_) => Ok(None),
            Err(s) => Err(s),
        },
        Val::Text(t) => Ok(parsed_int(trimmed(t))),
        _ => Ok(None),
    }
}

/// What an optional integer result stands for.
pub open spec fn opt_int_outcome(r: Result<Option<i64>, Halt>) -> Result<Option<i64>, Stop> {
    match r {
        Ok(i) => Ok(i),
        Err(h) => Err(h@),
    }
}

/// The integer a value stands for.
pub fn value_as_i64(v: &Value, facts: &Facts) -> (r: Result<Option<i64>, Halt>)
    ensures
        opt_int_outcome(r) == as_int(v@, facts@),
{
    match v {
        Value::Int(i) => Ok(Some(*i)),
        Value::Float(_) => match facts.ask_one(Task::Truncate, v) {
            Ok(Value::Int(i)) => Ok(Some(i)),
            Ok(_) => Ok(None),
            Err(h) => Err(h),
        },
        Value::Text(t) => Ok(parse_int(trim_text(t.as_str()).as_str())),
        _ => Ok(None),
    }
}

/// The type a value's column is given.
pub open spec fn type_name_of(v: Val) -> Seq<char> {
    match v {
        Val::Int(_) => "INTEGER"@,
        Val::Float(_) => "DOUBLE"@,
        Val::Bool(_) => "BOOLEAN"@,
        Val::Jsonb(_) => "JSONB"@,
        _ => "VARCHAR"@,
    }
}

/// The type a value's column is given.
pub fn value_type_name(v: &Value) -> (r: &'static str)
    ensures
        r@ == type_name_of(v@),
{
    match v {
        Value::Int(_) => "INTEGER",
        Value::Float(_) => "DOUBLE",
        Value::Bool(_) => "BOOLEAN",
        Value::Jsonb(_) => "JSONB",
        _ => "VARCHAR",
    }
}

/// The value a JSON value stands for.
pub open spec fn json_val(j: JsonView, k: Known) -> Result<Val, Stop> {
    match j {
        JsonView::Null => Ok(Val::Null),
        JsonView::Bool(b) => Ok(Val::Bool(b)),
        JsonView::Number(n) => match parsed_int(n) {
            Some(i) => Ok(Val::Int(i)),
            None => match asked(k, on_one(TaskView::ToFloat, Val::Text(n))) {
                Ok(Val::Float(b)) => Ok(Val::Float(b)),
                Ok(_) => Ok(Val::Text(n)),
                Err(s) => Err(s),
            },
        },
        JsonView::Str(s) => Ok(Val::Text(s)),
        other => Ok(Val::Jsonb(other)),
    }
}

/// The value a JSON value stands for.
pub fn json_to_value(j: &Json, facts: &Facts) -> (r: Result<Value, Halt>)
    ensures
        outcome(r) == json_val(j@, facts@),
{
    match j {
        Json::Null => Ok(Value::Null),
        Json::Bool(b) => Ok(Value::Bool(*b)),
        Json::Number(n) => match parse_int(n.as_str()) {
            Some(i) => Ok(Value::Int(i)),
            None => match facts.ask_one(Task::ToFloat, &Value::Text(n.clone())) {
                Ok(Value::Float(b)) => Ok(Value::Float(b)),
                Ok(_) => Ok(Value::Text(n.clone())),
                Err(h) => Err(h),
            },
        },
        Json::Str(s) => Ok(Value::Text(s.clone())),
        other => Ok(Value::Jsonb(other.duplicate())),
    }
}

/// The values that JSON values stand for.
pub open spec fn json_vals(s: Seq<JsonView>, k: Known) -> Result<Seq<Val>, Stop>
    decreases s.len(),
{
    if s.len() == 0 {
        Ok(Seq::empty())
    } else {
        match json_vals(s.drop_last(), k) {
            Err(e) => Err(e),
            Ok(done) => match json_val(s.last(), k) {
                Err(e) => Err(e),
                Ok(v) => Ok(done.push(v)),
            },
        }
    }
}

proof fn lemma_json_vals_fail(s: Seq<JsonView>, n: int, k: Known)
    requires
        0 <= n <= s.len(),
        json_vals(s.take(n), k) is Err,
    ensures
        json_vals(s, k) == json_vals(s.take(n), k),
    decreases s.len(),
{
    if n < s.len() {
        assert(s.drop_last().take(n) =~= s.take(n));
        lemma_json_vals_fail(s.drop_last(), n, k);
    } else {
        assert(s.take(n) =~= s);
    }
}

fn json_values(items: &Vec<Json>, facts: &Facts) -> (r: Result<Vec<Value>, Halt>)
    ensures
        list_outcome(r) == json_vals(jsons(items@), facts@),
{
    let ghost all = jsons(items@);
    let mut out: Vec<Value> = Vec::new();
    let mut i: usize = 0;
    assert(all.take(0) =~= Seq::<JsonView>::empty());
    assert(vals(out@) =~= Seq::<Val>::empty());
    while i < items.len()
        invariant
            i <= items@.len(),
            all == jsons(items@),
            json_vals(all.take(i as int), facts@) == Ok::<Seq<Val>, Stop>(vals(out@)),
        decreases items@.len() - i,
    {
        assert(all.take(i + 1).drop_last() =~= all.take(i as int));
        assert(all.take(i + 1).last() == items@[i as int]@);
        match json_to_value(&items[i], facts) {
            Err(h) => {
                proof {
                    lemma_json_vals_fail(all, i + 1, facts@);
                }
                return Err(h);
            },
            Ok(v) => {
                let ghost before = out@;
                out.push(v);
                assert(vals(out@) =~= vals(before).push(v@));
            },
        }
        i = i + 1;
    }
    assert(all.take(i as int) =~= all);
    Ok(out)
}

/// The elements of an array or JSON array; none of anything else.
pub open spec fn elements(v: Val, k: Known) -> Result<Seq<Val>, Stop> {
    match v {
        Val::Array(items) => Ok(items),
        Val::Jsonb(JsonView::Array(items)) => json_vals(items, k),
        _ => Ok(Seq::empty()),
    }
}

/// Coerces an argument to a list of elements: array/JSON-array contents, or
/// empty for null/non-array (lenient: PostgreSQL would require an array, but
/// introspection unnests possibly-absent array columns).
pub fn as_elements(v: &Value, facts: &Facts) -> (r: Result<Vec<Value>, Halt>)
    ensures
        list_outcome(r) == elements(v@, facts@),
{
    match v {
        Value::Array(items) => Ok(clone_values(items)),
        Value::Jsonb(j) => match j {
            Json::Array(items) => json_values(items, facts),
            _ => {
                let none: Vec<Value> = Vec::new();
                assert(vals(none@) =~= Seq::<Val>::empty());
                Ok(none)
            },
        },
        _ => {
            let none: Vec<Value> = Vec::new();
            assert(vals(none@) =~= Seq::<Val>::empty());
            Ok(none)
        },
    }
}

// ---------------------------------------------------------------------------
// unnest
// ---------------------------------------------------------------------------

/// The elements of each argument.
pub open spec fn all_elements(args: Seq<Val>, k: Known) -> Result<Seq<Seq<Val>>, Stop>
    decreases args.len(),
{
    if args.len() == 0 {
        Ok(Seq::empty())
    } else {
        match all_elements(args.drop_last(), k) {
            Err(s) => Err(s),
            Ok(done) => match elements(args.last(), k) {
                Err(s) => Err(s),
                Ok(items) => Ok(done.push(items)),
            },
        }
    }
}

/// The length of the longest of the lists.
pub open spec fn height(columns: Seq<Seq<Val>>) -> nat
    decreases columns.len(),
{
    if columns.len() == 0 {
        0
    } else {
        let rest = height(columns.drop_last());
        if columns.last().len() > rest {
            columns.last().len()
        } else {
            rest
        }
    }
}

/// The lists side by side, the shorter ones padded with NULL.
pub open spec fn transposed(columns: Seq<Seq<Val>>) -> Seq<Seq<Val>> {
    Seq::new(
        height(columns),
        |i: int| Seq::new(columns.len(), |c: int| cell(columns[c], i)),
    )
}

/// A table function's column types and rows.
#[verifier::ext_equal]
pub struct Produced {
    pub types: Seq<Seq<char>>,
    pub rows: Seq<Seq<Val>>,
}

/// What a table function's result stands for.
pub open spec fn produced_outcome(r: Result<(Vec<String>, Vec<Vec<Value>>), Halt>) -> Result<
    Produced,
    Stop,
> {
    match r {
        Ok((types, rows)) => Ok(Produced { types: texts(types@), rows: rows_view(rows@) }),
        Err(h) => Err(h@),
    }
}

/// What `unnest` produces.
pub open spec fn unnested(args: Seq<Val>, k: Known) -> Result<Produced, Stop> {
    match all_elements(args, k) {
        Err(s) => Err(s),
        Ok(columns) => Ok(
            if columns.len() == 0 {
                Produced { types: seq!["VARCHAR"@], rows: Seq::empty() }
            } else {
                Produced {
                    types: Seq::new(
                        columns.len(),
                        |i: int| type_name_of(cell(columns[i], 0)),
                    ),
                    rows: transposed(columns),
                }
            },
        ),
    }
}

proof fn lemma_elements_fail(args: Seq<Val>, n: int, k: Known)
    requires
        0 <= n <= args.len(),
        all_elements(args.take(n), k) is Err,
    ensures
        all_elements(args, k) == all_elements(args.take(n), k),
    decreases args.len(),
{
    if n < args.len() {
        assert(args.drop_last().take(n) =~= args.take(n));
        lemma_elements_fail(args.drop_last(), n, k);
    } else {
        assert(args.take(n) =~= args);
    }
}

/// `unnest(a[, b, ...])`: one column per array argument, one row per element
/// position; shorter arrays are padded with NULL (PostgreSQL semantics).
pub fn unnest_rows(args: &Vec<Value>, facts: &Facts) -> (r: Result<
    (Vec<String>, Vec<Vec<Value>>),
    Halt,
>)
    ensures
        produced_outcome(r) == unnested(vals(args@), facts@),
{
    let ghost all = vals(args@);
    let mut columns: Vec<Vec<Value>> = Vec::new();
    let mut most: usize = 0;
    let mut i: usize = 0;
    assert(all.take(0) =~= Seq::<Val>::empty());
    assert(rows_view(columns@) =~= Seq::<Seq<Val>>::empty());
    while i < args.len()
        invariant
            i <= args@.len(),
            all == vals(args@),
            columns@.len() == i,
            all_elements(all.take(i as int), facts@) == Ok::<Seq<Seq<Val>>, Stop>(
                rows_view(columns@),
            ),
            most == height(rows_view(columns@)),
        decreases args@.len() - i,
    {
        assert(all.take(i + 1).drop_last() =~= all.take(i as int));
        assert(all.take(i + 1).last() == args@[i as int]@);
        match as_elements(&args[i], facts) {
            Err(h) => {
                proof {
                    lemma_elements_fail(all, i + 1, facts@);
                }
                return Err(h);
            },
            Ok(items) => {
                let ghost before = columns@;
                if items.len() > most {
                    most = items.len();
                }
                columns.push(items);
                assert(rows_view(columns@) =~= rows_view(before).push(vals(items@)));
                assert(rows_view(columns@).drop_last() =~= rows_view(before));
            },
        }
        i = i + 1;
    }
    assert(all.take(i as int) =~= all);
    let ghost lists = rows_view(columns@);
    if columns.len() == 0 {
        let types: Vec<String> = vec!["VARCHAR".to_owned()];
        assert(texts(types@) =~= seq!["VARCHAR"@]);
        let rows: Vec<Vec<Value>> = Vec::new();
        assert(rows_view(rows@) =~= Seq::<Seq<Val>>::empty());
        return Ok((types, rows));
    }
    let mut types: Vec<String> = Vec::new();
    let mut c: usize = 0;
    while c < columns.len()
        invariant
            c <= columns@.len(),
            types@.len() == c,
            forall|j: int|
                0 <= j < c ==> (#[trigger] types@[j])@ == type_name_of(cell(vals(columns@[j]@), 0)),
        decreases columns@.len() - c,
    {
        let first = cell_at(&columns[c], 0);
        types.push(value_type_name(&first).to_owned());
        c = c + 1;
    }
    assert(texts(types@) =~= Seq::new(lists.len(), |i: int| type_name_of(cell(lists[i], 0))));
    let mut rows: Vec<Vec<Value>> = Vec::new();
    let mut at: usize = 0;
    while at < most
        invariant
            at <= most,
            rows@.len() == at,
            lists == rows_view(columns@),
            most == height(lists),
            forall|j: int| 0 <= j < at ==> vals((#[trigger] rows@[j])@) == transposed(lists)[j],
        decreases most - at,
    {
        let mut row: Vec<Value> = Vec::new();
        let mut c: usize = 0;
        while c < columns.len()
            invariant
                c <= columns@.len(),
                row@.len() == c,
                forall|j: int|
                    0 <= j < c ==> (#[trigger] row@[j])@ == cell(vals(columns@[j]@), at as int),
            decreases columns@.len() - c,
        {
            row.push(cell_at(&columns[c], at));
            c = c + 1;
        }
        assert(vals(row@) =~= transposed(lists)[at as int]);
        rows.push(row);
        at = at + 1;
    }
    assert(rows_view(rows@) =~= transposed(lists));
    Ok((types, rows))
}

// ---------------------------------------------------------------------------
// generate_series
// ---------------------------------------------------------------------------

/// How many integers there are from `n` to `stop` in the direction of the
/// step.
pub open spec fn ahead(n: int, stop: int, step: int) -> nat {
    if step > 0 && n <= stop {
        (stop - n + 1) as nat
    } else if step < 0 && n >= stop {
        (n - stop + 1) as nat
    } else {
        0
    }
}

/// The integers from `n` on, `step` apart, up to `stop`.
pub open spec fn series(n: int, stop: int, step: int) -> Seq<Seq<Val>>
    decreases ahead(n, stop, step),
{
    if (step > 0 && n <= stop) || (step < 0 && n >= stop) {
        seq![seq![Val::Int(n as i64)]] + series(n + step, stop, step)
    } else {
        Seq::empty()
    }
}

/// The rows of a series are its start plus each multiple of its step, none
/// beyond its stop.
pub proof fn law_series_counts_by_its_step(n: int, stop: int, step: int, i: int)
    requires
        step != 0,
        0 <= i < series(n, stop, step).len(),
    ensures
        series(n, stop, step)[i] == seq![Val::Int((n + i * step) as i64)],
        step > 0 ==> n + i * step <= stop,
        step < 0 ==> n + i * step >= stop,
    decreases i,
{
    if i > 0 {
        law_series_counts_by_its_step(n + step, stop, step, i - 1);
        assert((n + step) + (i - 1) * step == n + i * step) by (nonlinear_arith);
    } else {
        assert(0 * step == 0) by (nonlinear_arith);
    }
}

/// What `generate_series` produces.
pub open spec fn generated(args: Seq<Val>, k: Known) -> Result<Produced, Stop> {
    let types = seq!["INTEGER"@];
    match as_int(cell(args, 0), k) {
        Err(s) => Err(s),
        Ok(start) => match as_int(cell(args, 1), k) {
            Err(s) => Err(s),
            Ok(stop) => match as_int(cell(args, 2), k) {
                Err(s) => Err(s),
                Ok(step) => {
                    let by = match step {
                        Some(n) => n,
                        None => 1,
                    };
                    Ok(
                        match (start, stop) {
                            (Some(a), Some(b)) => Produced {
                                types,
                                rows: series(a as int, b as int, by as int),
                            },
                            _ => Produced { types, rows: Seq::empty() },
                        },
                    )
                },
            },
        },
    }
}

/// `generate_series(start, stop[, step])` over integers (step defaults to 1).
pub fn generate_series_rows(args: &Vec<Value>, facts: &Facts) -> (r: Result<
    (Vec<String>, Vec<Vec<Value>>),
    Halt,
>)
    ensures
        produced_outcome(r) == generated(vals(args@), facts@),
{
    let start = match value_as_i64(&cell_at(args, 0), facts) {
        Ok(v) => v,
        Err(h) => {
            return Err(h);
        },
    };
    let stop = match value_as_i64(&cell_at(args, 1), facts) {
        Ok(v) => v,
        Err(h) => {
            return Err(h);
        },
    };
    let step: i64 = match value_as_i64(&cell_at(args, 2), facts) {
        Ok(Some(v)) => v,
        Ok(None) => 1,
        Err(h) => {
            return Err(h);
        },
    };
    let types: Vec<String> = vec!["INTEGER".to_owned()];
    assert(texts(types@) =~= seq!["INTEGER"@]);
    let mut rows: Vec<Vec<Value>> = Vec::new();
    assert(rows_view(rows@) =~= Seq::<Seq<Val>>::empty());
    if let (Some(from), Some(to)) = (start, stop) {
        let mut n: i128 = from as i128;
        let last: i128 = to as i128;
        let by: i128 = step as i128;
        let ghost all = series(from as int, to as int, step as int);
        assert(rows_view(rows@) + series(n as int, last as int, by as int) =~= all);
        while (by > 0 && n <= last) || (by < 0 && n >= last)
            invariant
                i64::MIN <= last <= i64::MAX,
                i64::MIN <= by <= i64::MAX,
                by > 0 ==> i64::MIN <= n <= 2 * i64::MAX,
                by < 0 ==> 2 * i64::MIN <= n <= i64::MAX,
                rows_view(rows@) + series(n as int, last as int, by as int) == all,
            decreases ahead(n as int, last as int, by as int),
        {
            let ghost before = rows@;
            let row: Vec<Value> = vec![Value::Int(n as i64)];
            assert(vals(row@) =~= seq![Val::Int(n as i64)]);
            rows.push(row);
            assert(rows_view(rows@) =~= rows_view(before).push(seq![Val::Int(n as i64)]));
            assert(rows_view(rows@) + series(n + by, last as int, by as int) =~= rows_view(before)
                + series(n as int, last as int, by as int));
            n = n + by;
        }
        assert(rows_view(rows@) =~= all);
    }
    Ok((types, rows))
}

// ---------------------------------------------------------------------------
// JSON arrays
// ---------------------------------------------------------------------------

/// The elements of a JSON array, given as such or as its text.
pub open spec fn json_items(v: Val, k: Known) -> Result<Seq<JsonView>, Stop> {
    match v {
        Val::Jsonb(JsonView::Array(items)) => Ok(items),
        Val::Text(_) => match asked(k, on_one(TaskView::ParseJson, v)) {
            Ok(Val::Jsonb(JsonView::Array(items))) => Ok(items),
            Ok(_) => Ok(Seq::empty()),
            Err(s) => Err(s),
        },
        _ => Ok(Seq::empty()),
    }
}

/// A JSON element as text.
pub open spec fn json_item_text(j: JsonView) -> Val {
    match j {
        JsonView::Null => Val::Null,
        JsonView::Str(s) => Val::Text(s),
        _ => Val::Text(spaced(j)),
    }
}

/// JSON elements, one a row, as they are or as text.
pub open spec fn json_item_rows(items: Seq<JsonView>, as_text: bool) -> Seq<Seq<Val>> {
    Seq::new(
        items.len(),
        |i: int|
            seq![
                if as_text {
                    json_item_text(items[i])
                } else {
                    Val::Jsonb(items[i])
                },
            ],
    )
}

/// What `jsonb_array_elements[_text]` produces.
pub open spec fn json_elements(args: Seq<Val>, as_text: bool, k: Known) -> Result<Produced, Stop> {
    match json_items(cell(args, 0), k) {
        Err(s) => Err(s),
        Ok(items) => Ok(
            Produced {
                types: seq![
                    if as_text {
                        "TEXT"@
                    } else {
                        "JSONB"@
                    },
                ],
                rows: json_item_rows(items, as_text),
            },
        ),
    }
}

/// What a result of rows stands for.
pub open spec fn rows_result(r: Result<Vec<Vec<Value>>, Halt>) -> Result<Seq<Seq<Val>>, Stop> {
    match r {
        Ok(rows) => Ok(rows_view(rows@)),
        Err(h) => Err(h@),
    }
}

fn json_rows_of(items: &Vec<Json>, as_text: bool) -> (r: Vec<Vec<Value>>)
    ensures
        rows_view(r@) == json_item_rows(jsons(items@), as_text),
{
    let ghost all = json_item_rows(jsons(items@), as_text);
    let mut out: Vec<Vec<Value>> = Vec::new();
    let mut i: usize = 0;
    while i < items.len()
        invariant
            i <= items@.len(),
            all == json_item_rows(jsons(items@), as_text),
            out@.len() == i,
            forall|j: int| 0 <= j < i ==> vals((#[trigger] out@[j])@) == all[j],
        decreases items@.len() - i,
    {
        assert(jsons(items@)[i as int] == items@[i as int]@);
        let v = if as_text {
            match &items[i] {
                Json::Null => Value::Null,
                Json::Str(s) => Value::Text(s.clone()),
                other => Value::Text(spaced_text(other)),
            }
        } else {
            Value::Jsonb(items[i].duplicate())
        };
        let row: Vec<Value> = vec![v];
        assert(vals(row@) =~= all[i as int]);
        out.push(row);
        i = i + 1;
    }
    assert(rows_view(out@) =~= all);
    out
}

/// `jsonb_array_elements(arr)` / `jsonb_array_elements_text(arr)`: one row per
/// element, as JSONB or as text.
pub fn json_array_elements_rows(args: &Vec<Value>, as_text: bool, facts: &Facts) -> (r: Result<
    (Vec<String>, Vec<Vec<Value>>),
    Halt,
>)
    ensures
        produced_outcome(r) == json_elements(vals(args@), as_text, facts@),
{
    let none: Vec<Json> = Vec::new();
    assert(jsons(none@) =~= Seq::<JsonView>::empty());
    let given = cell_at(args, 0);
    // The array as a document: parsed from text, as an untyped literal is.
    let parsed = match &given {
        Value::Text(_) => match facts.ask_one(Task::ParseJson, &given) {
            Ok(v) => v,
            Err(h) => {
                return Err(h);
            },
        },
        other => other.duplicate(),
    };
    let items: &Vec<Json> = match &parsed {
        Value::Jsonb(Json::Array(items)) => items,
        _ => &none,
    };
    assert(json_items(given@, facts@) == Ok::<Seq<JsonView>, Stop>(jsons(items@)));
    let rows = json_rows_of(items, as_text);
    let types: Vec<String> = vec![
        if as_text {
            "TEXT".to_owned()
        } else {
            "JSONB".to_owned()
        },
    ];
    assert(texts(types@) =~= seq![
        if as_text {
            "TEXT"@
        } else {
            "JSONB"@
        },
    ]);
    Ok((types, rows))
}

/// The JSON text whose elements are listed.
pub open spec fn json_source(v: Val) -> Val {
    match v {
        Val::Json(t) => Val::Text(t),
        Val::Text(t) => Val::Text(t),
        Val::Jsonb(j) => Val::Text(spaced(j)),
        _ => Val::Text(Seq::empty()),
    }
}

/// An element's text as a value: as written, or as the text it stands for.
pub open spec fn written_rows(items: Seq<Val>, as_text: bool, k: Known) -> Result<
    Seq<Seq<Val>>,
    Stop,
>
    decreases items.len(),
{
    if items.len() == 0 {
        Ok(Seq::empty())
    } else {
        match written_rows(items.drop_last(), as_text, k) {
            Err(s) => Err(s),
            Ok(done) => match if as_text {
                asked(k, on_one(TaskView::JsonMember, items.last()))
            } else {
                Ok(
                    match items.last() {
                        Val::Text(t) => Val::Json(t),
                        other => other,
                    },
                )
            } {
                Err(s) => Err(s),
                Ok(v) => Ok(done.push(seq![v])),
            },
        }
    }
}

/// What `json_array_elements[_text]` produces.
pub open spec fn json_written_elements(args: Seq<Val>, as_text: bool, k: Known) -> Result<
    Produced,
    Stop,
> {
    match asked(k, on_one(TaskView::JsonElements, json_source(cell(args, 0)))) {
        Err(s) => Err(s),
        Ok(v) => match written_rows(
            match v {
                Val::Array(items) => items,
                _ => Seq::empty(),
            },
            as_text,
            k,
        ) {
            Err(s) => Err(s),
            Ok(rows) => Ok(
                Produced {
                    types: seq![
                        if as_text {
                            "TEXT"@
                        } else {
                            "JSON"@
                        },
                    ],
                    rows,
                },
            ),
        },
    }
}

proof fn lemma_written_rows_fail(items: Seq<Val>, as_text: bool, n: int, k: Known)
    requires
        0 <= n <= items.len(),
        written_rows(items.take(n), as_text, k) is Err,
    ensures
        written_rows(items, as_text, k) == written_rows(items.take(n), as_text, k),
    decreases items.len(),
{
    if n < items.len() {
        assert(items.drop_last().take(n) =~= items.take(n));
        lemma_written_rows_fail(items.drop_last(), as_text, n, k);
    } else {
        assert(items.take(n) =~= items);
    }
}

fn written_rows_of(items: &Vec<Value>, as_text: bool, facts: &Facts) -> (r: Result<
    Vec<Vec<Value>>,
    Halt,
>)
    ensures
        rows_result(r) == written_rows(vals(items@), as_text, facts@),
{
    let ghost all = vals(items@);
    let mut out: Vec<Vec<Value>> = Vec::new();
    let mut i: usize = 0;
    assert(all.take(0) =~= Seq::<Val>::empty());
    assert(rows_view(out@) =~= Seq::<Seq<Val>>::empty());
    while i < items.len()
        invariant
            i <= items@.len(),
            all == vals(items@),
            written_rows(all.take(i as int), as_text, facts@) == Ok::<Seq<Seq<Val>>, Stop>(
                rows_view(out@),
            ),
        decreases items@.len() - i,
    {
        assert(all.take(i + 1).drop_last() =~= all.take(i as int));
        assert(all.take(i + 1).last() == items@[i as int]@);
        let cell_value = if as_text {
            facts.ask_one(Task::JsonMember, &items[i])
        } else {
            Ok(
                match &items[i] {
                    Value::Text(t) => Value::Json(t.clone()),
                    other => other.duplicate(),
                },
            )
        };
        match cell_value {
            Err(h) => {
                proof {
                    lemma_written_rows_fail(all, as_text, i + 1, facts@);
                }
                return Err(h);
            },
            Ok(v) => {
                let ghost before = out@;
                let row: Vec<Value> = vec![v];
                assert(vals(row@) =~= seq![v@]);
                out.push(row);
                assert(rows_view(out@) =~= rows_view(before).push(seq![v@]));
            },
        }
        i = i + 1;
    }
    assert(all.take(i as int) =~= all);
    Ok(out)
}

/// `json_array_elements(arr)` / `json_array_elements_text(arr)`: one row per
/// element, as written or as text.
pub fn json_text_elements_rows(args: &Vec<Value>, as_text: bool, facts: &Facts) -> (r: Result<
    (Vec<String>, Vec<Vec<Value>>),
    Halt,
>)
    ensures
        produced_outcome(r) == json_written_elements(vals(args@), as_text, facts@),
{
    let none: Vec<Value> = Vec::new();
    assert(vals(none@) =~= Seq::<Val>::empty());
    let given = cell_at(args, 0);
    let source = match &given {
        Value::Json(t) => Value::Text(t.clone()),
        Value::Text(t) => Value::Text(t.clone()),
        Value::Jsonb(j) => Value::Text(spaced_text(j)),
        _ => {
            let empty = String::new();
            assert(empty@ =~= Seq::<char>::empty());
            Value::Text(empty)
        },
    };
    let answer = match facts.ask_one(Task::JsonElements, &source) {
        Ok(v) => v,
        Err(h) => {
            return Err(h);
        },
    };
    let items: &Vec<Value> = match &answer {
        Value::Array(items) => items,
        _ => &none,
    };
    match written_rows_of(items, as_text, facts) {
        Err(h) => Err(h),
        Ok(rows) => {
            let types: Vec<String> = vec![
                if as_text {
                    "TEXT".to_owned()
                } else {
                    "JSON".to_owned()
                },
            ];
            assert(texts(types@) =~= seq![
                if as_text {
                    "TEXT"@
                } else {
                    "JSON"@
                },
            ]);
            Ok((types, rows))
        },
    }
}

// ---------------------------------------------------------------------------
// regexp_split_to_table
// ---------------------------------------------------------------------------

/// Texts, one a row.
pub open spec fn text_rows(pieces: Seq<Seq<char>>) -> Seq<Seq<Val>> {
    Seq::new(pieces.len(), |i: int| seq![Val::Text(pieces[i])])
}

/// The text of an argument, empty for a missing one.
pub open spec fn arg_text(args: Seq<Val>, i: int, k: Known) -> Result<Seq<char>, Stop> {
    if 0 <= i < args.len() {
        shown(args[i], k)
    } else {
        Ok(Seq::empty())
    }
}

/// What `regexp_split_to_table` produces, given the pieces of the text.
pub open spec fn split_rows(text: Seq<char>, pieces: Option<Seq<Seq<char>>>) -> Seq<Seq<Val>> {
    match pieces {
        Some(p) => text_rows(p),
        None => text_rows(seq![text]),
    }
}

/// What `regexp_split_to_table` produces.
pub open spec fn regexp_split(args: Seq<Val>, k: Known) -> Result<Produced, Stop> {
    match arg_text(args, 0, k) {
        Err(s) => Err(s),
        Ok(text) => match arg_text(args, 1, k) {
            Err(s) => Err(s),
            Ok(pattern) => Ok(
                Produced {
                    types: seq!["VARCHAR"@],
                    rows: split_rows(text, regex_pieces(pattern, text)),
                },
            ),
        },
    }
}

/// The rows for the pieces of a text; the whole text where there are none.
pub fn piece_rows(text: String, pieces: Option<Vec<String>>) -> (r: Vec<Vec<Value>>)
    ensures
        rows_view(r@) == split_rows(text@, opt_texts(pieces)),
{
    let list: Vec<String> = match pieces {
        Some(p) => p,
        None => {
            let whole: Vec<String> = vec![text];
            assert(texts(whole@) =~= seq![text@]);
            whole
        },
    };
    let mut out: Vec<Vec<Value>> = Vec::new();
    let mut i: usize = 0;
    while i < list.len()
        invariant
            i <= list@.len(),
            out@.len() == i,
            forall|j: int| 0 <= j < i ==> vals((#[trigger] out@[j])@) == seq![Val::Text(list@[j]@)],
        decreases list@.len() - i,
    {
        let row: Vec<Value> = vec![Value::Text(list[i].clone())];
        assert(vals(row@) =~= seq![Val::Text(list@[i as int]@)]);
        out.push(row);
        i = i + 1;
    }
    assert(rows_view(out@) =~= text_rows(texts(list@)));
    out
}

fn text_of_arg(args: &Vec<Value>, i: usize, facts: &Facts) -> (r: Result<String, Halt>)
    ensures
        crate::facts::text_outcome(r) == arg_text(vals(args@), i as int, facts@),
{
    if i < args.len() {
        assert(vals(args@)[i as int] == args@[i as int]@);
        render(&args[i], facts)
    } else {
        let empty = String::new();
        assert(empty@ =~= Seq::<char>::empty());
        Ok(empty)
    }
}

/// `regexp_split_to_table(string, pattern)`: one text row per split piece. An
/// invalid pattern yields the whole string as a single row.
pub fn regexp_split_rows(args: &Vec<Value>, facts: &Facts) -> (r: Result<
    (Vec<String>, Vec<Vec<Value>>),
    Halt,
>)
    ensures
        produced_outcome(r) == regexp_split(vals(args@), facts@),
{
    let text = match text_of_arg(args, 0, facts) {
        Ok(t) => t,
        Err(h) => {
            return Err(h);
        },
    };
    let pattern = match text_of_arg(args, 1, facts) {
        Ok(t) => t,
        Err(h) => {
            return Err(h);
        },
    };
    let pieces = regex_split(pattern.as_str(), text.as_str());
    let types: Vec<String> = vec!["VARCHAR".to_owned()];
    assert(texts(types@) =~= seq!["VARCHAR"@]);
    Ok((types, piece_rows(text, pieces)))
}

// ---------------------------------------------------------------------------
// Table functions
// ---------------------------------------------------------------------------

/// What a table function produces.
pub open spec fn produced(name: Seq<char>, args: Seq<Val>, k: Known) -> Result<Produced, Stop> {
    if name == "unnest"@ {
        unnested(args, k)
    } else if name == "generate_series"@ {
        generated(args, k)
    } else if name == "jsonb_array_elements"@ {
        json_elements(args, false, k)
    } else if name == "jsonb_array_elements_text"@ {
        json_elements(args, true, k)
    } else if name == "json_array_elements"@ {
        json_written_elements(args, false, k)
    } else if name == "json_array_elements_text"@ {
        json_written_elements(args, true, k)
    } else if name == "regexp_split_to_table"@ {
        regexp_split(args, k)
    } else if name == "pg_partition_ancestors"@ {
        Ok(Produced { types: seq!["REGCLASS"@], rows: Seq::empty() })
    } else if name == "pg_available_extensions"@ {
        Ok(
            Produced {
                types: seq!["NAME"@, "TEXT"@, "TEXT"@],
                rows: seq![
                    seq![
                        Val::Text("plpgsql"@),
                        Val::Text("1.0"@),
                        Val::Text("PL/pgSQL procedural language"@),
                    ],
                ],
            },
        )
    } else {
        Err(Stop::Raised("Unsupported table function: "@ + name + "()"@))
    }
}

/// The rows a table function call produces.
pub fn produce(name: &str, args: &Vec<Value>, facts: &Facts) -> (r: Result<
    (Vec<String>, Vec<Vec<Value>>),
    Halt,
>)
    ensures
        produced_outcome(r) == produced(name@, vals(args@), facts@),
{
    if same_text(name, "unnest") {
        unnest_rows(args, facts)
    } else if same_text(name, "generate_series") {
        generate_series_rows(args, facts)
    } else if same_text(name, "jsonb_array_elements") {
        json_array_elements_rows(args, false, facts)
    } else if same_text(name, "jsonb_array_elements_text") {
        json_array_elements_rows(args, true, facts)
    } else if same_text(name, "json_array_elements") {
        json_text_elements_rows(args, false, facts)
    } else if same_text(name, "json_array_elements_text") {
        json_text_elements_rows(args, true, facts)
    } else if same_text(name, "regexp_split_to_table") {
        regexp_split_rows(args, facts)
    } else if same_text(name, "pg_partition_ancestors") {
        // No table is a partition, so none has ancestors.
        let types: Vec<String> = vec!["REGCLASS".to_owned()];
        assert(texts(types@) =~= seq!["REGCLASS"@]);
        let rows: Vec<Vec<Value>> = Vec::new();
        assert(rows_view(rows@) =~= Seq::<Seq<Val>>::empty());
        Ok((types, rows))
    } else if same_text(name, "pg_available_extensions") {
        // The function behind the `pg_available_extensions` view.
        let types: Vec<String> = vec!["NAME".to_owned(), "TEXT".to_owned(), "TEXT".to_owned()];
        assert(texts(types@) =~= seq!["NAME"@, "TEXT"@, "TEXT"@]);
        let row: Vec<Value> = vec![
            Value::Text("plpgsql".to_owned()),
            Value::Text("1.0".to_owned()),
            Value::Text("PL/pgSQL procedural language".to_owned()),
        ];
        assert(vals(row@) =~= seq![
            Val::Text("plpgsql"@),
            Val::Text("1.0"@),
            Val::Text("PL/pgSQL procedural language"@),
        ]);
        let rows: Vec<Vec<Value>> = vec![row];
        assert(rows_view(rows@) =~= seq![vals(row@)]);
        Ok((types, rows))
    } else {
        Err(Halt::Raised(concat3("Unsupported table function: ", name, "()")))
    }
}

/// The name of a table function's `i`-th value column: the one its alias
/// gives it, else the one the function gives it, else the relation's alias for
/// the first, else the function's name.
pub open spec fn value_column_name(spec: TableFnSpec, i: int) -> Seq<char> {
    let named = spec.name@ == "jsonb_array_elements"@ || spec.name@ == "jsonb_array_elements_text"@
        || spec.name@ == "json_array_elements"@ || spec.name@ == "json_array_elements_text"@;
    if 0 <= i < spec.column_aliases@.len() {
        spec.column_aliases@[i]@
    } else if i == 0 && named {
        "value"@
    } else if i == 0 && spec.alias is Some {
        spec.alias->Some_0@
    } else {
        spec.name@
    }
}

fn value_column(spec: &TableFnSpec, i: usize) -> (r: String)
    ensures
        r@ == value_column_name(*spec, i as int),
{
    if i < spec.column_aliases.len() {
        return spec.column_aliases[i].clone();
    }
    let name = spec.name.as_str();
    if i == 0 && (same_text(name, "jsonb_array_elements") || same_text(
        name,
        "jsonb_array_elements_text",
    ) || same_text(name, "json_array_elements") || same_text(name, "json_array_elements_text")) {
        return "value".to_owned();
    }
    if i == 0 {
        if let Some(alias) = &spec.alias {
            return alias.clone();
        }
    }
    spec.name.clone()
}

/// Rows with their numbers, counted from 1.
pub open spec fn numbered(rows: Seq<Seq<Val>>) -> Seq<Seq<Val>> {
    Seq::new(rows.len(), |i: int| rows[i].push(Val::Int((i + 1) as i64)))
}

/// A function's output under its column names, with its ordinality.
pub open spec fn named_output(spec: TableFnSpec, p: Produced) -> Rel {
    let n = p.types.len();
    let names = Seq::new(n, |i: int| value_column_name(spec, i));
    if spec.with_ordinality {
        Rel {
            columns: names.push(
                if n < spec.column_aliases@.len() {
                    spec.column_aliases@[n as int]@
                } else {
                    "ordinality"@
                },
            ),
            types: p.types.push("INTEGER"@),
            rows: numbered(p.rows),
        }
    } else {
        Rel { columns: names, types: p.types, rows: p.rows }
    }
}

fn name_output(spec: &TableFnSpec, types: Vec<String>, rows: Vec<Vec<Value>>) -> (r: Relation)
    ensures
        r@ == named_output(*spec, Produced { types: texts(types@), rows: rows_view(rows@) }),
{
    let ghost p = Produced { types: texts(types@), rows: rows_view(rows@) };
    let n: usize = types.len();
    let mut columns: Vec<String> = Vec::new();
    let mut i: usize = 0;
    while i < n
        invariant
            i <= n,
            columns@.len() == i,
            forall|j: int| 0 <= j < i ==> (#[trigger] columns@[j])@ == value_column_name(*spec, j),
        decreases n - i,
    {
        columns.push(value_column(spec, i));
        i = i + 1;
    }
    assert(texts(columns@) =~= Seq::new(p.types.len(), |i: int| value_column_name(*spec, i)));
    if !spec.with_ordinality {
        return Relation { columns, types, rows };
    }
    let ghost before = columns@;
    columns.push(
        if n < spec.column_aliases.len() {
            spec.column_aliases[n].clone()
        } else {
            "ordinality".to_owned()
        },
    );
    assert(texts(columns@) =~= texts(before).push(columns@.last()@));
    let mut all_types = types;
    let ghost given = all_types@;
    all_types.push("INTEGER".to_owned());
    assert(texts(all_types@) =~= texts(given).push("INTEGER"@));
    let mut out: Vec<Vec<Value>> = Vec::new();
    let mut j: usize = 0;
    while j < rows.len()
        invariant
            j <= rows@.len(),
            out@.len() == j,
            forall|x: int|
                0 <= x < j ==> vals((#[trigger] out@[x])@) == vals(rows@[x]@).push(
                    Val::Int((x + 1) as i64),
                ),
        decreases rows@.len() - j,
    {
        let number: i64 = (j as u128 + 1) as i64;
        out.push(row_with(&rows[j], Value::Int(number)));
        j = j + 1;
    }
    assert(rows_view(out@) =~= numbered(p.rows));
    Relation { columns, types: all_types, rows: out }
}

/// The request for an operand's value in a row, read as a type.
pub open spec fn operand_request(
    read_as: Seq<char>,
    op: Operand,
    names: Seq<Seq<char>>,
    types: Seq<Seq<char>>,
    row: Seq<Val>,
) -> RequestView {
    let columns = seq![names_val(names), names_val(types), Val::Array(row)];
    RequestView {
        task: TaskView::Operand(read_as),
        args: match op {
            Operand::Literal(v) => columns.push(Val::Bool(false)).push(v@),
            Operand::Ident(n) => columns.push(Val::Bool(true)).push(Val::Text(n@)),
        },
    }
}

/// An operand's value in a row, read as a type.
pub fn eval_operand(
    read_as: &str,
    op: &Operand,
    names: &Vec<String>,
    types: &Vec<String>,
    row: &Vec<Value>,
    facts: &Facts,
) -> (r: Result<Value, Halt>)
    ensures
        outcome(r) == asked(
            facts@,
            operand_request(read_as@, *op, texts(names@), texts(types@), vals(row@)),
        ),
{
    let args: Vec<Value> = match op {
        Operand::Literal(v) => vec![
            names_value(names),
            names_value(types),
            Value::Array(clone_values(row)),
            Value::Bool(false),
            v.duplicate(),
        ],
        Operand::Ident(n) => vec![
            names_value(names),
            names_value(types),
            Value::Array(clone_values(row)),
            Value::Bool(true),
            Value::Text(n.clone()),
        ],
    };
    assert(vals(args@) =~= operand_request(
        read_as@,
        *op,
        texts(names@),
        texts(types@),
        vals(row@),
    ).args);
    facts.ask(Task::Operand(read_as.to_owned()), args)
}

/// The values of the first `n` operands in a row.
pub open spec fn operand_values(
    ops: Seq<Operand>,
    n: nat,
    names: Seq<Seq<char>>,
    row: Seq<Val>,
    k: Known,
) -> Result<Seq<Val>, Stop>
    decreases n,
{
    if n == 0 {
        Ok(Seq::empty())
    } else {
        match operand_values(ops, (n - 1) as nat, names, row, k) {
            Err(s) => Err(s),
            Ok(done) => match asked(k, operand_request("TEXT"@, ops[n - 1], names, Seq::empty(), row)) {
                Err(s) => Err(s),
                Ok(v) => Ok(done.push(v)),
            },
        }
    }
}

proof fn lemma_operands_fail(
    ops: Seq<Operand>,
    n: nat,
    m: nat,
    names: Seq<Seq<char>>,
    row: Seq<Val>,
    k: Known,
)
    requires
        n <= m,
        operand_values(ops, n, names, row, k) is Err,
    ensures
        operand_values(ops, m, names, row, k) == operand_values(ops, n, names, row, k),
    decreases m,
{
    if n < m {
        lemma_operands_fail(ops, n, (m - 1) as nat, names, row, k);
    }
}

fn eval_operands(ops: &Vec<Operand>, names: &Vec<String>, row: &Vec<Value>, facts: &Facts) -> (r:
    Result<Vec<Value>, Halt>)
    ensures
        list_outcome(r) == operand_values(
            ops@,
            ops@.len(),
            texts(names@),
            vals(row@),
            facts@,
        ),
{
    let mut out: Vec<Value> = Vec::new();
    let no_types: Vec<String> = Vec::new();
    let mut i: usize = 0;
    assert(texts(no_types@) =~= Seq::<Seq<char>>::empty());
    assert(vals(out@) =~= Seq::<Val>::empty());
    while i < ops.len()
        invariant
            i <= ops@.len(),
            texts(no_types@) == Seq::<Seq<char>>::empty(),
            operand_values(ops@, i as nat, texts(names@), vals(row@), facts@) == Ok::<
                Seq<Val>,
                Stop,
            >(vals(out@)),
        decreases ops@.len() - i,
    {
        match eval_operand("TEXT", &ops[i], names, &no_types, row, facts) {
            Err(h) => {
                proof {
                    lemma_operands_fail(
                        ops@,
                        (i + 1) as nat,
                        ops@.len(),
                        texts(names@),
                        vals(row@),
                        facts@,
                    );
                }
                return Err(h);
            },
            Ok(v) => {
                let ghost before = out@;
                out.push(v);
                assert(vals(out@) =~= vals(before).push(v@));
            },
        }
        i = i + 1;
    }
    Ok(out)
}

/// The values of the first `n` argument expressions in a row.
pub open spec fn argument_values(
    args: Seq<ScalarExpr>,
    n: nat,
    names: Seq<Seq<char>>,
    row: Seq<Val>,
    k: Known,
) -> Result<Seq<Val>, Stop>
    decreases n,
{
    if n == 0 {
        Ok(Seq::empty())
    } else {
        match argument_values(args, (n - 1) as nat, names, row, k) {
            Err(s) => Err(s),
            Ok(done) => match column_values(args[n - 1], names, seq![row], k) {
                Err(s) => Err(s),
                Ok(v) => Ok(done.push(cell(v, 0))),
            },
        }
    }
}

proof fn lemma_arguments_fail(
    args: Seq<ScalarExpr>,
    n: nat,
    m: nat,
    names: Seq<Seq<char>>,
    row: Seq<Val>,
    k: Known,
)
    requires
        n <= m,
        argument_values(args, n, names, row, k) is Err,
    ensures
        argument_values(args, m, names, row, k) == argument_values(args, n, names, row, k),
    decreases m,
{
    if n < m {
        lemma_arguments_fail(args, n, (m - 1) as nat, names, row, k);
    }
}

fn eval_arguments(args: &Vec<ScalarExpr>, names: &Vec<String>, row: &Vec<Value>, facts: &Facts) -> (r:
    Result<Vec<Value>, Halt>)
    ensures
        list_outcome(r) == argument_values(
            args@,
            args@.len(),
            texts(names@),
            vals(row@),
            facts@,
        ),
{
    let rows: Vec<Vec<Value>> = vec![clone_values(row)];
    assert(rows_view(rows@) =~= seq![vals(row@)]);
    let mut out: Vec<Value> = Vec::new();
    let mut i: usize = 0;
    assert(vals(out@) =~= Seq::<Val>::empty());
    while i < args.len()
        invariant
            i <= args@.len(),
            rows_view(rows@) == seq![vals(row@)],
            argument_values(args@, i as nat, texts(names@), vals(row@), facts@) == Ok::<
                Seq<Val>,
                Stop,
            >(vals(out@)),
        decreases args@.len() - i,
    {
        match eval_column(&args[i], names, &rows, facts) {
            Err(h) => {
                proof {
                    lemma_arguments_fail(
                        args@,
                        (i + 1) as nat,
                        args@.len(),
                        texts(names@),
                        vals(row@),
                        facts@,
                    );
                }
                return Err(h);
            },
            Ok(v) => {
                let ghost before = out@;
                let first = cell_at(&v, 0);
                out.push(first);
                assert(vals(out@) =~= vals(before).push(first@));
            },
        }
        i = i + 1;
    }
    Ok(out)
}

// ---------------------------------------------------------------------------
// ROWS FROM
// ---------------------------------------------------------------------------

/// The results, or the first failure among them.
pub open spec fn collected(outs: Seq<Result<Rel, Stop>>) -> Result<Seq<Rel>, Stop>
    decreases outs.len(),
{
    if outs.len() == 0 {
        Ok(Seq::empty())
    } else {
        match collected(outs.drop_last()) {
            Err(s) => Err(s),
            Ok(done) => match outs.last() {
                Err(s) => Err(s),
                Ok(r) => Ok(done.push(r)),
            },
        }
    }
}

/// The column names of the outputs, in order.
pub open spec fn all_columns(outs: Seq<Rel>) -> Seq<Seq<char>>
    decreases outs.len(),
{
    if outs.len() == 0 {
        Seq::empty()
    } else {
        all_columns(outs.drop_last()) + outs.last().columns
    }
}

/// The column types of the outputs, in order.
pub open spec fn all_types(outs: Seq<Rel>) -> Seq<Seq<char>>
    decreases outs.len(),
{
    if outs.len() == 0 {
        Seq::empty()
    } else {
        all_types(outs.drop_last()) + outs.last().types
    }
}

/// The most rows any of the outputs has.
pub open spec fn most_rows(outs: Seq<Rel>) -> nat
    decreases outs.len(),
{
    if outs.len() == 0 {
        0
    } else {
        let rest = most_rows(outs.drop_last());
        if outs.last().rows.len() > rest {
            outs.last().rows.len()
        } else {
            rest
        }
    }
}

/// The outputs' rows at `i`, side by side, NULL where an output has none.
pub open spec fn row_across(outs: Seq<Rel>, i: int) -> Seq<Val>
    decreases outs.len(),
{
    if outs.len() == 0 {
        Seq::empty()
    } else {
        row_across(outs.drop_last(), i) + if i < outs.last().rows.len() {
            outs.last().rows[i]
        } else {
            nulls(outs.last().types.len())
        }
    }
}

/// The outputs side by side, under the given names as far as they go.
pub open spec fn side_by_side(outs: Seq<Rel>, aliases: Seq<Seq<char>>) -> Rel {
    let columns = all_columns(outs);
    Rel {
        columns: Seq::new(
            columns.len(),
            |i: int|
                if i < aliases.len() {
                    aliases[i]
                } else {
                    columns[i]
                },
        ),
        types: all_types(outs),
        rows: Seq::new(most_rows(outs), |i: int| row_across(outs, i)),
    }
}

/// What each relation stands for.
pub open spec fn rels(s: Seq<Relation>) -> Seq<Rel> {
    Seq::new(s.len(), |i: int| s[i]@)
}

fn across(outs: &Vec<Relation>, i: usize) -> (r: Vec<Value>)
    ensures
        vals(r@) == row_across(rels(outs@), i as int),
{
    let ghost all = rels(outs@);
    let mut row: Vec<Value> = Vec::new();
    let mut j: usize = 0;
    assert(all.take(0) =~= Seq::<Rel>::empty());
    assert(vals(row@) =~= Seq::<Val>::empty());
    while j < outs.len()
        invariant
            j <= outs@.len(),
            all == rels(outs@),
            vals(row@) == row_across(all.take(j as int), i as int),
        decreases outs@.len() - j,
    {
        assert(all.take(j + 1).drop_last() =~= all.take(j as int));
        assert(all.take(j + 1).last() == outs@[j as int]@);
        if i < outs[j].rows.len() {
            assert(outs@[j as int]@.rows[i as int] == vals(outs@[j as int].rows@[i as int]@));
            row = concat_rows(&row, &outs[j].rows[i]);
        } else {
            row = concat_rows(&row, &null_row(outs[j].types.len()));
        }
        j = j + 1;
    }
    assert(all.take(j as int) =~= all);
    row
}

fn put_side_by_side(outs: &Vec<Relation>, aliases: &Vec<String>) -> (r: Relation)
    ensures
        r@ == side_by_side(rels(outs@), texts(aliases@)),
{
    let ghost all = rels(outs@);
    let mut names: Vec<String> = Vec::new();
    let mut types: Vec<String> = Vec::new();
    let mut most: usize = 0;
    let mut j: usize = 0;
    assert(all.take(0) =~= Seq::<Rel>::empty());
    assert(texts(names@) =~= Seq::<Seq<char>>::empty());
    assert(texts(types@) =~= Seq::<Seq<char>>::empty());
    while j < outs.len()
        invariant
            j <= outs@.len(),
            all == rels(outs@),
            texts(names@) == all_columns(all.take(j as int)),
            texts(types@) == all_types(all.take(j as int)),
            most == most_rows(all.take(j as int)),
        decreases outs@.len() - j,
    {
        assert(all.take(j + 1).drop_last() =~= all.take(j as int));
        assert(all.take(j + 1).last() == outs@[j as int]@);
        names = concat_texts(&names, &outs[j].columns);
        types = concat_texts(&types, &outs[j].types);
        if outs[j].rows.len() > most {
            most = outs[j].rows.len();
        }
        j = j + 1;
    }
    assert(all.take(j as int) =~= all);
    let mut columns: Vec<String> = Vec::new();
    let mut c: usize = 0;
    while c < names.len()
        invariant
            c <= names@.len(),
            columns@.len() == c,
            forall|x: int|
                0 <= x < c ==> (#[trigger] columns@[x])@ == if x < aliases@.len() {
                    aliases@[x]@
                } else {
                    names@[x]@
                },
        decreases names@.len() - c,
    {
        if c < aliases.len() {
            columns.push(aliases[c].clone());
        } else {
            columns.push(names[c].clone());
        }
        c = c + 1;
    }
    let mut rows: Vec<Vec<Value>> = Vec::new();
    let mut i: usize = 0;
    while i < most
        invariant
            i <= most,
            rows@.len() == i,
            all == rels(outs@),
            forall|x: int| 0 <= x < i ==> vals((#[trigger] rows@[x])@) == row_across(all, x),
        decreases most - i,
    {
        rows.push(across(outs, i));
        i = i + 1;
    }
    let r = Relation { columns, types, rows };
    assert(r@.columns =~= side_by_side(all, texts(aliases@)).columns);
    assert(r@.rows =~= side_by_side(all, texts(aliases@)).rows);
    r
}

/// What a table function call yields for a driving row.
pub open spec fn table_output(
    spec: TableFnSpec,
    names: Seq<Seq<char>>,
    row: Seq<Val>,
    k: Known,
) -> Result<Rel, Stop>
    decreases spec, 1int,
{
    if spec.rows_from@.len() > 0 {
        match collected(member_outputs(spec, names, row, k)) {
            Err(s) => Err(s),
            Ok(outs) => Ok(side_by_side(outs, texts(spec.column_aliases@))),
        }
    } else {
        let args = if spec.arg_exprs@.len() == 0 {
            operand_values(spec.args@, spec.args@.len(), names, row, k)
        } else {
            argument_values(spec.arg_exprs@, spec.arg_exprs@.len(), names, row, k)
        };
        match args {
            Err(s) => Err(s),
            Ok(values) => match produced(spec.name@, values, k) {
                Err(s) => Err(s),
                Ok(p) => Ok(named_output(spec, p)),
            },
        }
    }
}

/// What each function of `ROWS FROM` yields.
pub open spec fn member_outputs(
    spec: TableFnSpec,
    names: Seq<Seq<char>>,
    row: Seq<Val>,
    k: Known,
) -> Seq<Result<Rel, Stop>>
    decreases spec, 0int,
{
    Seq::new(
        spec.rows_from@.len(),
        |i: int|
            if 0 <= i < spec.rows_from@.len() && decreases_to!(spec => spec.rows_from@[i]) {
                table_output(spec.rows_from@[i], names, row, k)
            } else {
                Err(Stop::Raised(Seq::empty()))
            },
    )
}

proof fn lemma_collected_fails(outs: Seq<Result<Rel, Stop>>, n: int)
    requires
        0 <= n <= outs.len(),
        collected(outs.take(n)) is Err,
    ensures
        collected(outs) == collected(outs.take(n)),
    decreases outs.len(),
{
    if n < outs.len() {
        assert(outs.drop_last().take(n) =~= outs.take(n));
        lemma_collected_fails(outs.drop_last(), n);
    } else {
        assert(outs.take(n) =~= outs);
    }
}

/// Evaluates a table function against a (possibly lateral) driving `row`,
/// returning its output columns, their declared types, and the produced rows.
/// Argument column references resolve against `row`/`names` (lateral); literal
/// arguments ignore them.
pub fn eval_table_function(
    spec: &TableFnSpec,
    row: &Vec<Value>,
    names: &Vec<String>,
    facts: &Facts,
) -> (r: Result<Relation, Halt>)
    ensures
        relation_outcome(r) == table_output(*spec, texts(names@), vals(row@), facts@),
    decreases spec,
{
    if spec.rows_from.len() > 0 {
        let ghost all = member_outputs(*spec, texts(names@), vals(row@), facts@);
        let mut outs: Vec<Relation> = Vec::new();
        let mut i: usize = 0;
        assert(all.take(0) =~= Seq::<Result<Rel, Stop>>::empty());
        assert(rels(outs@) =~= Seq::<Rel>::empty());
        while i < spec.rows_from.len()
            invariant
                i <= spec.rows_from@.len(),
                spec.rows_from@.len() > 0,
                all == member_outputs(*spec, texts(names@), vals(row@), facts@),
                collected(all.take(i as int)) == Ok::<Seq<Rel>, Stop>(rels(outs@)),
            decreases spec.rows_from@.len() - i,
        {
            assert(decreases_to!(spec.rows_from@ => spec.rows_from@[i as int]));
            assert(decreases_to!(*spec => spec.rows_from@[i as int]));
            assert(all.take(i + 1).drop_last() =~= all.take(i as int));
            assert(all.take(i + 1).last() == table_output(
                spec.rows_from@[i as int],
                texts(names@),
                vals(row@),
                facts@,
            ));
            match eval_table_function(&spec.rows_from[i], row, names, facts) {
                Err(h) => {
                    proof {
                        lemma_collected_fails(all, i + 1);
                    }
                    return Err(h);
                },
                Ok(out) => {
                    let ghost before = outs@;
                    outs.push(out);
                    assert(rels(outs@) =~= rels(before).push(out@));
                },
            }
            i = i + 1;
        }
        assert(all.take(i as int) =~= all);
        return Ok(put_side_by_side(&outs, &spec.column_aliases));
    }
    let args = if spec.arg_exprs.len() == 0 {
        eval_operands(&spec.args, names, row, facts)
    } else {
        eval_arguments(&spec.arg_exprs, names, row, facts)
    };
    match args {
        Err(h) => Err(h),
        Ok(values) => match produce(spec.name.as_str(), &values, facts) {
            Err(h) => Err(h),
            Ok((types, rows)) => Ok(name_output(spec, types, rows)),
        },
    }
}

/// A table function that stands alone, as a query's output.
pub fn exec_table_function(spec: &TableFnSpec, facts: &Facts) -> (r: Result<QueryOutput, Halt>)
    ensures
        match (r, table_output(*spec, Seq::empty(), Seq::empty(), facts@)) {
            (Ok(out), Ok(rel)) => {
                &&& texts(out.columns@) == rel.columns
                &&& texts(out.types@) == rel.types
                &&& crate::rows::row_views(out.rows@) == rel.rows
                &&& out.tag@ == select_tag(rel.rows.len())
            },
            (Err(h), Err(s)) => h@ == s,
            _ => false,
        },
{
    let no_row: Vec<Value> = Vec::new();
    let no_names: Vec<String> = Vec::new();
    assert(vals(no_row@) =~= Seq::<Val>::empty());
    assert(texts(no_names@) =~= Seq::<Seq<char>>::empty());
    match eval_table_function(spec, &no_row, &no_names, facts) {
        Err(h) => Err(h),
        Ok(rel) => {
            let tag = select_tag_text(rel.rows.len());
            let mut rows: Vec<Row> = Vec::new();
            let mut i: usize = 0;
            while i < rel.rows.len()
                invariant
                    i <= rel.rows@.len(),
                    rows@.len() == i,
                    forall|j: int| 0 <= j < i ==> (#[trigger] rows@[j])@ == vals(rel.rows@[j]@),
                decreases rel.rows@.len() - i,
            {
                rows.push(Row { values: clone_values(&rel.rows[i]) });
                i = i + 1;
            }
            assert(crate::rows::row_views(rows@) =~= rows_view(rel.rows@));
            Ok(QueryOutput { columns: rel.columns, types: rel.types, rows, tag })
        },
    }
}

} // verus!
