//! SELECT lists: the columns that items compute, and the rows they make.
use vstd::prelude::*;
use crate::cells::{
    ask_groups, ask_relation_row, ask_rows, cell, cell_at, cell_at_if, cell_if, group_answers, groups_view, is_true,
    opt_int, relation_row, row_answers, row_with, value_is_true,
};
use crate::codes::{code_of_comparison, code_of_expr, code_of_plan, expr_code, plan_code};
use crate::facts::{
    asked, list_outcome, on_one, outcome, Facts, Halt, Known, RequestView, Stop, Task, TaskView,
};
use crate::join::{condition_verdicts, subject_of};
use crate::json_ops::{find_member, member};
use crate::json_text::{compact, compact_text};
use crate::names::{column_of, find_column, unqualified, unqualify};
use crate::plan_types::{aggregate_name, FilterExpr, Operand, Predicate, ProjectionItem, ScalarExpr};
use crate::render::{compare, ordered, Rank};
use crate::subqueries::{
    ask_subqueries, column_values, contains_subquery, eval_column, nested, subquery_lists,
};
use crate::table_functions::{eval_operand, operand_request};
use crate::text::{concat2, concat3, decimal, same_text, size_text, text_in, texts};
use crate::value::{
    clone_values, group_value_views, members, rows_view, vals, Json, JsonView, Val, Value,
};
use crate::window::{directed, window_column, window_values};

verus! {

broadcast use group_value_views;

// ---------------------------------------------------------------------------
// Names of output columns
// ---------------------------------------------------------------------------

/// An alias, or else a default name.
pub open spec fn alias_or(alias: Option<String>, name: Seq<char>) -> Seq<char> {
    match alias {
        Some(a) => a@,
        None => name,
    }
}

/// The name of the output column of a SELECT-list item.
pub open spec fn output_name(item: ProjectionItem) -> Seq<char> {
    match item {
        ProjectionItem::Column(c) => unqualified(c@),
        ProjectionItem::AliasedColumn(_, a) => a@,
        ProjectionItem::Literal(_) => "?column?"@,
        ProjectionItem::AliasedLiteral(_, a) => a@,
        ProjectionItem::WindowFunction { func_name, alias, .. } => alias_or(alias, func_name@),
        ProjectionItem::ScalarFunction { func_name, alias, .. } => alias_or(alias, func_name@),
        ProjectionItem::JsonAccess { left, operator, right, alias } => alias_or(
            alias,
            left@ + operator@ + right@,
        ),
        ProjectionItem::CaseWhenEq { else_column, alias, .. } => alias_or(
            alias,
            unqualified(else_column@),
        ),
        ProjectionItem::Case { alias, .. } => alias_or(alias, "case"@),
        ProjectionItem::Aggregate(op, _) => aggregate_name(op),
        ProjectionItem::Expr { alias, .. } => alias_or(alias, "?column?"@),
        ProjectionItem::Subquery { alias, .. } => alias_or(alias, "?column?"@),
    }
}

fn alias_or_name(alias: &Option<String>, name: &str) -> (r: String)
    ensures
        r@ == alias_or(*alias, name@),
{
    match alias {
        Some(a) => a.clone(),
        None => name.to_owned(),
    }
}

/// The name of the output column of a SELECT-list item.
pub fn output_name_of(item: &ProjectionItem) -> (r: String)
    ensures
        r@ == output_name(*item),
{
    match item {
        ProjectionItem::Column(c) => unqualify(c.as_str()),
        ProjectionItem::AliasedColumn(_, a) => a.clone(),
        ProjectionItem::Literal(_) => "?column?".to_owned(),
        ProjectionItem::AliasedLiteral(_, a) => a.clone(),
        ProjectionItem::WindowFunction { func_name, alias, .. } => alias_or_name(
            alias,
            func_name.as_str(),
        ),
        ProjectionItem::ScalarFunction { func_name, alias, .. } => alias_or_name(
            alias,
            func_name.as_str(),
        ),
        ProjectionItem::JsonAccess { left, operator, right, alias } => {
            let whole = concat3(left.as_str(), operator.as_str(), right.as_str());
            alias_or_name(alias, whole.as_str())
        },
        ProjectionItem::CaseWhenEq { else_column, alias, .. } => {
            let bare = unqualify(else_column.as_str());
            alias_or_name(alias, bare.as_str())
        },
        // A searched CASE must yield an output column, or the row description
        // and the data rows disagree on the number of fields.
        ProjectionItem::Case { alias, .. } => alias_or_name(alias, "case"),
        ProjectionItem::Aggregate(op, _) => op.sql_name().to_owned(),
        ProjectionItem::Expr { alias, .. } => alias_or_name(alias, "?column?"),
        ProjectionItem::Subquery { alias, .. } => alias_or_name(alias, "?column?"),
    }
}

/// The names of the output columns of a SELECT list.
pub open spec fn output_names(items: Seq<ProjectionItem>) -> Seq<Seq<char>> {
    Seq::new(items.len(), |i: int| output_name(items[i]))
}

/// The names of the output columns of a SELECT list.
pub fn output_names_of(items: &Vec<ProjectionItem>) -> (r: Vec<String>)
    ensures
        texts(r@) == output_names(items@),
{
    let mut out: Vec<String> = Vec::new();
    let mut i: usize = 0;
    while i < items.len()
        invariant
            i <= items@.len(),
            out@.len() == i,
            forall|j: int| 0 <= j < i ==> (#[trigger] out@[j])@ == output_name(items@[j]),
        decreases items@.len() - i,
    {
        out.push(output_name_of(&items[i]));
        i = i + 1;
    }
    assert(texts(out@) =~= output_names(items@));
    out
}

// ---------------------------------------------------------------------------
// Computed columns
// ---------------------------------------------------------------------------

/// The name under which the `i`-th item's computed column is kept.
pub open spec fn computed_name(i: nat) -> Seq<char> {
    "__expr_"@ + decimal(i as int)
}

/// Whether an item computes a column of its own before rows are made.
pub open spec fn is_computed(item: ProjectionItem) -> bool {
    item is WindowFunction || item is ScalarFunction || item is JsonAccess || item is Expr
        || item is Subquery
}

/// The member of a JSON document that `->>` reads, as text.
pub open spec fn json_accessed(v: Val, operator: Seq<char>, right: Seq<char>, k: Known) -> Result<
    Val,
    Stop,
> {
    if operator != "->>"@ {
        Ok(Val::Null)
    } else {
        let document = match v {
            Val::Jsonb(_) => Ok(v),
            Val::Text(_) => asked(k, on_one(TaskView::ParseJson, v)),
            _ => Ok(Val::Null),
        };
        match document {
            Err(s) => Err(s),
            Ok(Val::Jsonb(JsonView::Object(m))) => match member(m, right) {
                None => Ok(Val::Null),
                Some(JsonView::Str(s)) => Ok(Val::Text(s)),
                Some(j) => Ok(Val::Text(compact(j))),
            },
            Ok(_) => Ok(Val::Null),
        }
    }
}

fn access_json(v: &Value, operator: &str, right: &str, facts: &Facts) -> (r: Result<Value, Halt>)
    ensures
        outcome(r) == json_accessed(v@, operator@, right@, facts@),
{
    if !same_text(operator, "->>") {
        return Ok(Value::Null);
    }
    let document = match v {
        Value::Jsonb(_) => v.duplicate(),
        Value::Text(_) => match facts.ask_one(Task::ParseJson, v) {
            Ok(d) => d,
            Err(h) => {
                return Err(h);
            },
        },
        _ => Value::Null,
    };
    match &document {
        Value::Jsonb(j) => match j {
            Json::Object(m) => {
                assert(j@ == JsonView::Object(members(m@)));
                match find_member(m, right) {
                    None => Ok(Value::Null),
                    Some(found) => match &found {
                        Json::Str(s) => Ok(Value::Text(s.clone())),
                        _ => Ok(Value::Text(compact_text(&found))),
                    },
                }
            },
            _ => Ok(Value::Null),
        },
        _ => Ok(Value::Null),
    }
}

/// What `->>` reads in each of the first `n` rows.
pub open spec fn json_column(
    at: Option<int>,
    operator: Seq<char>,
    right: Seq<char>,
    rows: Seq<Seq<Val>>,
    n: nat,
    k: Known,
) -> Result<Seq<Val>, Stop>
    decreases n,
{
    if n == 0 {
        Ok(Seq::empty())
    } else {
        match json_column(at, operator, right, rows, (n - 1) as nat, k) {
            Err(s) => Err(s),
            Ok(done) => match json_accessed(cell_if(rows[n - 1], at), operator, right, k) {
                Err(s) => Err(s),
                Ok(v) => Ok(done.push(v)),
            },
        }
    }
}

proof fn lemma_json_column_fails(
    at: Option<int>,
    operator: Seq<char>,
    right: Seq<char>,
    rows: Seq<Seq<Val>>,
    n: nat,
    m: nat,
    k: Known,
)
    requires
        n <= m,
        json_column(at, operator, right, rows, n, k) is Err,
    ensures
        json_column(at, operator, right, rows, m, k) == json_column(
            at,
            operator,
            right,
            rows,
            n,
            k,
        ),
    decreases m,
{
    if n < m {
        lemma_json_column_fails(at, operator, right, rows, n, (m - 1) as nat, k);
    }
}

fn json_column_values(
    at: Option<usize>,
    operator: &str,
    right: &str,
    rows: &Vec<Vec<Value>>,
    facts: &Facts,
) -> (r: Result<Vec<Value>, Halt>)
    ensures
        list_outcome(r) == json_column(
            opt_int(at),
            operator@,
            right@,
            rows_view(rows@),
            rows@.len(),
            facts@,
        ),
{
    let ghost view = rows_view(rows@);
    let mut out: Vec<Value> = Vec::new();
    let mut i: usize = 0;
    assert(vals(out@) =~= Seq::<Val>::empty());
    while i < rows.len()
        invariant
            i <= rows@.len(),
            view == rows_view(rows@),
            json_column(opt_int(at), operator@, right@, view, i as nat, facts@) == Ok::<
                Seq<Val>,
                Stop,
            >(vals(out@)),
        decreases rows@.len() - i,
    {
        assert(view[i as int] == vals(rows@[i as int]@));
        let v = cell_at_if(&rows[i], at);
        match access_json(&v, operator, right, facts) {
            Err(h) => {
                proof {
                    lemma_json_column_fails(
                        opt_int(at),
                        operator@,
                        right@,
                        view,
                        (i + 1) as nat,
                        rows@.len(),
                        facts@,
                    );
                }
                return Err(h);
            },
            Ok(found) => {
                let ghost before = out@;
                out.push(found);
                assert(vals(out@) =~= vals(before).push(found@));
            },
        }
        i = i + 1;
    }
    Ok(out)
}

/// The values of the first `n` arguments of a function in each of the rows, one
/// list for each argument.
pub open spec fn argument_columns(
    args: Seq<Seq<char>>,
    n: nat,
    names: Seq<Seq<char>>,
    rows: Seq<Seq<Val>>,
    k: Known,
) -> Result<Seq<Seq<Val>>, Stop>
    decreases n,
{
    if n == 0 {
        Ok(Seq::empty())
    } else {
        match argument_columns(args, (n - 1) as nat, names, rows, k) {
            Err(s) => Err(s),
            Ok(done) => match row_answers(
                TaskView::Argument,
                Val::Text(args[n - 1]),
                names,
                rows,
                k,
            ) {
                Err(s) => Err(s),
                Ok(c) => Ok(done.push(c)),
            },
        }
    }
}

proof fn lemma_arguments_fail(
    args: Seq<Seq<char>>,
    n: nat,
    m: nat,
    names: Seq<Seq<char>>,
    rows: Seq<Seq<Val>>,
    k: Known,
)
    requires
        n <= m,
        argument_columns(args, n, names, rows, k) is Err,
    ensures
        argument_columns(args, m, names, rows, k) == argument_columns(args, n, names, rows, k),
    decreases m,
{
    if n < m {
        lemma_arguments_fail(args, n, (m - 1) as nat, names, rows, k);
    }
}

fn resolve_arguments(args: &Vec<String>, names: &Vec<String>, rows: &Vec<Vec<Value>>, facts: &Facts) -> (r:
    Result<Vec<Vec<Value>>, Halt>)
    ensures
        crate::table_functions::rows_result(r) == argument_columns(
            texts(args@),
            args@.len(),
            texts(names@),
            rows_view(rows@),
            facts@,
        ),
{
    let ghost (a, c, v) = (texts(args@), texts(names@), rows_view(rows@));
    let mut out: Vec<Vec<Value>> = Vec::new();
    let mut i: usize = 0;
    assert(rows_view(out@) =~= Seq::<Seq<Val>>::empty());
    while i < args.len()
        invariant
            i <= args@.len(),
            a == texts(args@),
            c == texts(names@),
            v == rows_view(rows@),
            argument_columns(a, i as nat, c, v, facts@) == Ok::<Seq<Seq<Val>>, Stop>(
                rows_view(out@),
            ),
        decreases args@.len() - i,
    {
        assert(a[i as int] == args@[i as int]@);
        match ask_rows(Task::Argument, Value::Text(args[i].clone()), names, rows, facts) {
            Err(h) => {
                proof {
                    lemma_arguments_fail(a, (i + 1) as nat, args@.len(), c, v, facts@);
                }
                return Err(h);
            },
            Ok(values) => {
                let ghost before = out@;
                out.push(values);
                assert(rows_view(out@) =~= rows_view(before).push(vals(values@)));
            },
        }
        i = i + 1;
    }
    Ok(out)
}

/// What a function returns for the arguments of the first `n` rows.
pub open spec fn called_column(name: Seq<char>, args: Seq<Seq<Val>>, n: nat, k: Known) -> Result<
    Seq<Val>,
    Stop,
>
    decreases n,
{
    if n == 0 {
        Ok(Seq::empty())
    } else {
        match called_column(name, args, (n - 1) as nat, k) {
            Err(s) => Err(s),
            Ok(done) => match asked(
                k,
                RequestView { task: TaskView::Call(name), args: args[n - 1] },
            ) {
                Err(s) => Err(s),
                Ok(v) => Ok(done.push(v)),
            },
        }
    }
}

proof fn lemma_called_fails(name: Seq<char>, args: Seq<Seq<Val>>, n: nat, m: nat, k: Known)
    requires
        n <= m,
        called_column(name, args, n, k) is Err,
    ensures
        called_column(name, args, m, k) == called_column(name, args, n, k),
    decreases m,
{
    if n < m {
        lemma_called_fails(name, args, n, (m - 1) as nat, k);
    }
}

fn call_for_rows(name: &String, args: &Vec<Vec<Value>>, facts: &Facts) -> (r: Result<
    Vec<Value>,
    Halt,
>)
    ensures
        list_outcome(r) == called_column(name@, rows_view(args@), args@.len(), facts@),
{
    let ghost all = rows_view(args@);
    let mut out: Vec<Value> = Vec::new();
    let mut i: usize = 0;
    assert(vals(out@) =~= Seq::<Val>::empty());
    while i < args.len()
        invariant
            i <= args@.len(),
            all == rows_view(args@),
            called_column(name@, all, i as nat, facts@) == Ok::<Seq<Val>, Stop>(vals(out@)),
        decreases args@.len() - i,
    {
        assert(all[i as int] == vals(args@[i as int]@));
        match facts.ask(Task::Call(name.clone()), clone_values(&args[i])) {
            Err(h) => {
                proof {
                    lemma_called_fails(name@, all, (i + 1) as nat, args@.len(), facts@);
                }
                return Err(h);
            },
            Ok(v) => {
                let ghost before = out@;
                out.push(v);
                assert(vals(out@) =~= vals(before).push(v@));
            },
        }
        i = i + 1;
    }
    Ok(out)
}

/// The column that a call makes: the function on the values that its arguments
/// have in each row.
pub open spec fn call_column(
    name: Seq<char>,
    args: Seq<Seq<char>>,
    names: Seq<Seq<char>>,
    rows: Seq<Seq<Val>>,
    k: Known,
) -> Result<Seq<Val>, Stop> {
    match argument_columns(args, args.len(), names, rows, k) {
        Err(s) => Err(s),
        Ok(columns) => called_column(name, rows_of_columns(columns, rows.len()), rows.len(), k),
    }
}

/// The column that an item computes.
#[verifier::opaque]
pub open spec fn computed_column(
    item: ProjectionItem,
    names: Seq<Seq<char>>,
    rows: Seq<Seq<Val>>,
    k: Known,
) -> Result<Seq<Val>, Stop> {
    match item {
        ProjectionItem::WindowFunction { func_name, args, partition_by, order_by, frame, .. } =>
            window_values(
                func_name@,
                texts(args@),
                texts(partition_by@),
                directed(order_by@),
                frame,
                names,
                rows,
                k,
            ),
        ProjectionItem::JsonAccess { left, operator, right, .. } => json_column(
            column_of(names, left@),
            operator@,
            right@,
            rows,
            rows.len(),
            k,
        ),
        ProjectionItem::Expr { expr, .. } => column_values(expr, names, rows, k),
        ProjectionItem::ScalarFunction { func_name, args, .. } => call_column(
            func_name@,
            texts(args@),
            names,
            rows,
            k,
        ),
        ProjectionItem::Subquery { plan, .. } => row_answers(
            TaskView::ScalarSubquery,
            plan_code(*plan),
            names,
            rows,
            k,
        ),
        _ => Ok(constant(Val::Null, rows.len())),
    }
}

fn compute_column(
    item: &ProjectionItem,
    names: &Vec<String>,
    rows: &Vec<Vec<Value>>,
    facts: &Facts,
) -> (r: Result<Vec<Value>, Halt>)
    ensures
        list_outcome(r) == computed_column(*item, texts(names@), rows_view(rows@), facts@),
{
    reveal(computed_column);
    assert(rows_view(rows@).len() == rows@.len());
    match item {
        ProjectionItem::WindowFunction { func_name, args, partition_by, order_by, frame, .. } =>
            window_column(func_name.as_str(), args, partition_by, order_by, frame, names, rows, facts),
        ProjectionItem::JsonAccess { left, operator, right, .. } => {
            let at = find_column(names, left.as_str());
            assert(opt_int(at) == column_of(texts(names@), left@));
            json_column_values(at, operator.as_str(), right.as_str(), rows, facts)
        },
        ProjectionItem::Expr { expr, .. } => eval_column(expr, names, rows, facts),
        ProjectionItem::ScalarFunction { func_name, args, .. } => {
            assert(texts(args@).len() == args@.len());
            let columns = match resolve_arguments(args, names, rows, facts) {
                Ok(c) => c,
                Err(h) => {
                    return Err(h);
                },
            };
            let resolved = make_rows(&columns, rows.len());
            call_for_rows(func_name, &resolved, facts)
        },
        ProjectionItem::Subquery { plan, .. } => ask_rows(
            Task::ScalarSubquery,
            code_of_plan(plan),
            names,
            rows,
            facts,
        ),
        _ => Ok(repeat(&Value::Null, rows.len())),
    }
}

/// Rows with one more column.
pub open spec fn with_column(rows: Seq<Seq<Val>>, values: Seq<Val>) -> Seq<Seq<Val>> {
    Seq::new(rows.len(), |i: int| rows[i].push(cell(values, i)))
}

/// Rows with one more column.
pub fn add_column(rows: &Vec<Vec<Value>>, values: &Vec<Value>) -> (r: Vec<Vec<Value>>)
    ensures
        rows_view(r@) == with_column(rows_view(rows@), vals(values@)),
        r@.len() == rows@.len(),
{
    let mut out: Vec<Vec<Value>> = Vec::new();
    let mut i: usize = 0;
    while i < rows.len()
        invariant
            i <= rows@.len(),
            out@.len() == i,
            forall|j: int|
                0 <= j < i ==> vals((#[trigger] out@[j])@) == vals(rows@[j]@).push(
                    cell(vals(values@), j),
                ),
        decreases rows@.len() - i,
    {
        out.push(row_with(&rows[i], cell_at(values, i)));
        i = i + 1;
    }
    assert(rows_view(out@) =~= with_column(rows_view(rows@), vals(values@)));
    out
}

/// Column names and rows.
#[verifier::ext_equal]
pub struct Table {
    pub names: Seq<Seq<char>>,
    pub rows: Seq<Seq<Val>>,
}

/// What column names and rows stand for.
pub open spec fn table_outcome(r: Result<(Vec<String>, Vec<Vec<Value>>), Halt>) -> Result<
    Table,
    Stop,
> {
    match r {
        Ok((names, rows)) => Ok(Table { names: texts(names@), rows: rows_view(rows@) }),
        Err(h) => Err(h@),
    }
}

/// The rows with the columns that the first `n` items compute.
pub open spec fn with_computed(items: Seq<ProjectionItem>, n: nat, given: Table, k: Known) -> Result<
    Table,
    Stop,
>
    decreases n,
{
    if n == 0 {
        Ok(given)
    } else {
        match with_computed(items, (n - 1) as nat, given, k) {
            Err(s) => Err(s),
            Ok(t) => if is_computed(items[n - 1]) {
                match computed_column(items[n - 1], t.names, t.rows, k) {
                    Err(s) => Err(s),
                    Ok(values) => Ok(
                        Table {
                            names: t.names.push(computed_name((n - 1) as nat)),
                            rows: with_column(t.rows, values),
                        },
                    ),
                }
            } else {
                Ok(t)
            },
        }
    }
}

proof fn lemma_computed_fails(
    items: Seq<ProjectionItem>,
    n: nat,
    m: nat,
    given: Table,
    k: Known,
)
    requires
        n <= m,
        with_computed(items, n, given, k) is Err,
    ensures
        with_computed(items, m, given, k) == with_computed(items, n, given, k),
    decreases m,
{
    if n < m {
        lemma_computed_fails(items, n, (m - 1) as nat, given, k);
    }
}

fn item_is_computed(item: &ProjectionItem) -> (r: bool)
    ensures
        r == is_computed(*item),
{
    match item {
        ProjectionItem::WindowFunction { .. } | ProjectionItem::ScalarFunction { .. }
        | ProjectionItem::JsonAccess { .. } | ProjectionItem::Expr { .. }
        | ProjectionItem::Subquery { .. } => true,
        _ => false,
    }
}

/// The rows with the columns that the items compute: window functions and
/// scalar expressions are evaluated before rows are made.
pub fn compute_items(
    items: &Vec<ProjectionItem>,
    names: Vec<String>,
    rows: Vec<Vec<Value>>,
    facts: &Facts,
) -> (r: Result<(Vec<String>, Vec<Vec<Value>>), Halt>)
    ensures
        table_outcome(r) == with_computed(
            items@,
            items@.len(),
            Table { names: texts(names@), rows: rows_view(rows@) },
            facts@,
        ),
        r is Ok ==> r->Ok_0.1@.len() == rows@.len(),
{
    let ghost given = Table { names: texts(names@), rows: rows_view(rows@) };
    let ghost count = rows@.len();
    let mut all_names = names;
    let mut all_rows = rows;
    let mut i: usize = 0;
    while i < items.len()
        invariant
            i <= items@.len(),
            all_rows@.len() == count,
            given == (Table { names: texts(names@), rows: rows_view(rows@) }),
            with_computed(items@, i as nat, given, facts@) == Ok::<Table, Stop>(
                Table { names: texts(all_names@), rows: rows_view(all_rows@) },
            ),
        decreases items@.len() - i,
    {
        if item_is_computed(&items[i]) {
            match compute_column(&items[i], &all_names, &all_rows, facts) {
                Err(h) => {
                    proof {
                        lemma_computed_fails(
                            items@,
                            (i + 1) as nat,
                            items@.len(),
                            given,
                            facts@,
                        );
                    }
                    return Err(h);
                },
                Ok(values) => {
                    let ghost before = all_names@;
                    let n = size_text(i);
                    let name = concat2("__expr_", n.as_str());
                    all_rows = add_column(&all_rows, &values);
                    all_names.push(name);
                    assert(texts(all_names@) =~= texts(before).push(computed_name(i as nat)));
                },
            }
        }
        i = i + 1;
    }
    Ok((all_names, all_rows))
}

// ---------------------------------------------------------------------------
// Output rows
// ---------------------------------------------------------------------------

/// The column that an item reads its value from.
pub open spec fn source_name(item: ProjectionItem, i: nat) -> Seq<char> {
    match item {
        ProjectionItem::Column(c) => c@,
        ProjectionItem::AliasedColumn(c, _) => c@,
        _ => computed_name(i),
    }
}

/// The value of `CASE left WHEN equals THEN .. ELSE ..` in a row.
pub open spec fn case_when_eq(item: ProjectionItem, names: Seq<Seq<char>>, row: Seq<Val>, k: Known) -> Result<
    Val,
    Stop,
> {
    match item {
        ProjectionItem::CaseWhenEq { left, equals, then_value, then_column, else_column, .. } => {
            match ordered(cell_if(row, column_of(names, left@)), equals@, k) {
                Err(s) => Err(s),
                Ok(rank) => Ok(
                    if rank == Rank::Equal {
                        match then_column {
                            Some(c) => cell_if(row, column_of(names, c@)),
                            None => then_value@,
                        }
                    } else {
                        cell_if(row, column_of(names, else_column@))
                    },
                ),
            }
        },
        _ => Ok(Val::Null),
    }
}

/// The values of such a `CASE` in the first `n` rows.
pub open spec fn case_column(
    item: ProjectionItem,
    names: Seq<Seq<char>>,
    rows: Seq<Seq<Val>>,
    n: nat,
    k: Known,
) -> Result<Seq<Val>, Stop>
    decreases n,
{
    if n == 0 {
        Ok(Seq::empty())
    } else {
        match case_column(item, names, rows, (n - 1) as nat, k) {
            Err(s) => Err(s),
            Ok(done) => match case_when_eq(item, names, rows[n - 1], k) {
                Err(s) => Err(s),
                Ok(v) => Ok(done.push(v)),
            },
        }
    }
}

proof fn lemma_case_column_fails(
    item: ProjectionItem,
    names: Seq<Seq<char>>,
    rows: Seq<Seq<Val>>,
    n: nat,
    m: nat,
    k: Known,
)
    requires
        n <= m,
        case_column(item, names, rows, n, k) is Err,
    ensures
        case_column(item, names, rows, m, k) == case_column(item, names, rows, n, k),
    decreases m,
{
    if n < m {
        lemma_case_column_fails(item, names, rows, n, (m - 1) as nat, k);
    }
}

fn read_named(names: &Vec<String>, name: &str, row: &Vec<Value>) -> (r: Value)
    ensures
        r@ == cell_if(vals(row@), column_of(texts(names@), name@)),
{
    let at = find_column(names, name);
    assert(opt_int(at) == column_of(texts(names@), name@));
    cell_at_if(row, at)
}

fn eval_case_when_eq(item: &ProjectionItem, names: &Vec<String>, row: &Vec<Value>, facts: &Facts) -> (r:
    Result<Value, Halt>)
    ensures
        outcome(r) == case_when_eq(*item, texts(names@), vals(row@), facts@),
{
    match item {
        ProjectionItem::CaseWhenEq { left, equals, then_value, then_column, else_column, .. } => {
            let v = read_named(names, left.as_str(), row);
            match compare(&v, equals, facts) {
                Err(h) => Err(h),
                Ok(rank) => Ok(
                    if rank == Rank::Equal {
                        match then_column {
                            Some(c) => read_named(names, c.as_str(), row),
                            None => then_value.duplicate(),
                        }
                    } else {
                        read_named(names, else_column.as_str(), row)
                    },
                ),
            }
        },
        _ => Ok(Value::Null),
    }
}

fn case_column_values(
    item: &ProjectionItem,
    names: &Vec<String>,
    rows: &Vec<Vec<Value>>,
    facts: &Facts,
) -> (r: Result<Vec<Value>, Halt>)
    ensures
        list_outcome(r) == case_column(
            *item,
            texts(names@),
            rows_view(rows@),
            rows@.len(),
            facts@,
        ),
{
    let ghost view = rows_view(rows@);
    let mut out: Vec<Value> = Vec::new();
    let mut i: usize = 0;
    assert(vals(out@) =~= Seq::<Val>::empty());
    while i < rows.len()
        invariant
            i <= rows@.len(),
            view == rows_view(rows@),
            case_column(*item, texts(names@), view, i as nat, facts@) == Ok::<Seq<Val>, Stop>(
                vals(out@),
            ),
        decreases rows@.len() - i,
    {
        assert(view[i as int] == vals(rows@[i as int]@));
        match eval_case_when_eq(item, names, &rows[i], facts) {
            Err(h) => {
                proof {
                    lemma_case_column_fails(
                        *item,
                        texts(names@),
                        view,
                        (i + 1) as nat,
                        rows@.len(),
                        facts@,
                    );
                }
                return Err(h);
            },
            Ok(v) => {
                let ghost before = out@;
                out.push(v);
                assert(vals(out@) =~= vals(before).push(v@));
            },
        }
        i = i + 1;
    }
    Ok(out)
}

/// The value of a searched `CASE` in a row, from the `i`-th branch on: the
/// result of the first branch whose condition holds, else the `ELSE` result,
/// else NULL.
pub open spec fn case_value(
    branches: Seq<(Predicate, Operand)>,
    else_result: Option<Operand>,
    i: int,
    names: Seq<Seq<char>>,
    types: Seq<Seq<char>>,
    row: Seq<Val>,
    k: Known,
) -> Result<Val, Stop>
    decreases branches.len() - i,
{
    if i < 0 || i >= branches.len() {
        match else_result {
            Some(o) => asked(k, operand_request("VARCHAR"@, o, names, types, row)),
            None => Ok(Val::Null),
        }
    } else {
        match condition_verdicts(
            Some(FilterExpr::Predicate(branches[i].0)),
            names,
            types,
            seq![row],
            k,
        ) {
            Err(s) => Err(s),
            Ok(marks) => if is_true(cell(marks, 0)) {
                asked(k, operand_request("VARCHAR"@, branches[i].1, names, types, row))
            } else {
                case_value(branches, else_result, i + 1, names, types, row, k)
            },
        }
    }
}

fn eval_case(
    branches: &Vec<(Predicate, Operand)>,
    else_result: &Option<Operand>,
    names: &Vec<String>,
    types: &Vec<String>,
    row: &Vec<Value>,
    facts: &Facts,
) -> (r: Result<Value, Halt>)
    ensures
        outcome(r) == case_value(
            branches@,
            *else_result,
            0,
            texts(names@),
            texts(types@),
            vals(row@),
            facts@,
        ),
{
    let rows: Vec<Vec<Value>> = vec![clone_values(row)];
    assert(rows_view(rows@) =~= seq![vals(row@)]);
    let mut i: usize = 0;
    while i < branches.len()
        invariant
            i <= branches@.len(),
            rows_view(rows@) == seq![vals(row@)],
            case_value(
                branches@,
                *else_result,
                0,
                texts(names@),
                texts(types@),
                vals(row@),
                facts@,
            ) == case_value(
                branches@,
                *else_result,
                i as int,
                texts(names@),
                texts(types@),
                vals(row@),
                facts@,
            ),
        decreases branches@.len() - i,
    {
        let marks = match ask_rows(
            Task::Conditions,
            subject_of(code_of_comparison(&branches[i].0), types),
            names,
            &rows,
            facts,
        ) {
            Ok(marks) => marks,
            Err(h) => {
                return Err(h);
            },
        };
        if value_is_true(&cell_at(&marks, 0)) {
            return eval_operand("VARCHAR", &branches[i].1, names, types, row, facts);
        }
        i = i + 1;
    }
    match else_result {
        Some(o) => eval_operand("VARCHAR", o, names, types, row, facts),
        None => Ok(Value::Null),
    }
}

/// The values of a searched `CASE` in the first `n` rows.
pub open spec fn searched_column(
    branches: Seq<(Predicate, Operand)>,
    else_result: Option<Operand>,
    names: Seq<Seq<char>>,
    types: Seq<Seq<char>>,
    rows: Seq<Seq<Val>>,
    n: nat,
    k: Known,
) -> Result<Seq<Val>, Stop>
    decreases n,
{
    if n == 0 {
        Ok(Seq::empty())
    } else {
        match searched_column(branches, else_result, names, types, rows, (n - 1) as nat, k) {
            Err(s) => Err(s),
            Ok(done) => match case_value(
                branches,
                else_result,
                0,
                names,
                types,
                rows[n - 1],
                k,
            ) {
                Err(s) => Err(s),
                Ok(v) => Ok(done.push(v)),
            },
        }
    }
}

proof fn lemma_searched_fails(
    branches: Seq<(Predicate, Operand)>,
    else_result: Option<Operand>,
    names: Seq<Seq<char>>,
    types: Seq<Seq<char>>,
    rows: Seq<Seq<Val>>,
    n: nat,
    m: nat,
    k: Known,
)
    requires
        n <= m,
        searched_column(branches, else_result, names, types, rows, n, k) is Err,
    ensures
        searched_column(branches, else_result, names, types, rows, m, k) == searched_column(
            branches,
            else_result,
            names,
            types,
            rows,
            n,
            k,
        ),
    decreases m,
{
    if n < m {
        lemma_searched_fails(branches, else_result, names, types, rows, n, (m - 1) as nat, k);
    }
}

fn searched_column_values(
    branches: &Vec<(Predicate, Operand)>,
    else_result: &Option<Operand>,
    names: &Vec<String>,
    types: &Vec<String>,
    rows: &Vec<Vec<Value>>,
    facts: &Facts,
) -> (r: Result<Vec<Value>, Halt>)
    ensures
        list_outcome(r) == searched_column(
            branches@,
            *else_result,
            texts(names@),
            texts(types@),
            rows_view(rows@),
            rows@.len(),
            facts@,
        ),
{
    let ghost view = rows_view(rows@);
    let mut out: Vec<Value> = Vec::new();
    let mut i: usize = 0;
    assert(vals(out@) =~= Seq::<Val>::empty());
    while i < rows.len()
        invariant
            i <= rows@.len(),
            view == rows_view(rows@),
            searched_column(
                branches@,
                *else_result,
                texts(names@),
                texts(types@),
                view,
                i as nat,
                facts@,
            ) == Ok::<Seq<Val>, Stop>(vals(out@)),
        decreases rows@.len() - i,
    {
        assert(view[i as int] == vals(rows@[i as int]@));
        match eval_case(branches, else_result, names, types, &rows[i], facts) {
            Err(h) => {
                proof {
                    lemma_searched_fails(
                        branches@,
                        *else_result,
                        texts(names@),
                        texts(types@),
                        view,
                        (i + 1) as nat,
                        rows@.len(),
                        facts@,
                    );
                }
                return Err(h);
            },
            Ok(v) => {
                let ghost before = out@;
                out.push(v);
                assert(vals(out@) =~= vals(before).push(v@));
            },
        }
        i = i + 1;
    }
    Ok(out)
}

/// The same value for each of `n` rows.
pub open spec fn constant(v: Val, n: nat) -> Seq<Val> {
    Seq::new(n, |i: int| v)
}

fn repeat(v: &Value, n: usize) -> (r: Vec<Value>)
    ensures
        vals(r@) == constant(v@, n as nat),
{
    let mut out: Vec<Value> = Vec::new();
    let mut i: usize = 0;
    while i < n
        invariant
            i <= n,
            out@.len() == i,
            forall|j: int| 0 <= j < i ==> (#[trigger] out@[j])@ == v@,
        decreases n - i,
    {
        out.push(v.duplicate());
        i = i + 1;
    }
    assert(vals(out@) =~= constant(v@, n as nat));
    out
}

/// The cells of a column that may be missing.
pub open spec fn column_cells(rows: Seq<Seq<Val>>, at: Option<int>) -> Seq<Val> {
    Seq::new(rows.len(), |i: int| cell_if(rows[i], at))
}

fn read_column(rows: &Vec<Vec<Value>>, at: Option<usize>) -> (r: Vec<Value>)
    ensures
        vals(r@) == column_cells(rows_view(rows@), opt_int(at)),
{
    let mut out: Vec<Value> = Vec::new();
    let mut i: usize = 0;
    while i < rows.len()
        invariant
            i <= rows@.len(),
            out@.len() == i,
            forall|j: int|
                0 <= j < i ==> (#[trigger] out@[j])@ == cell_if(vals(rows@[j]@), opt_int(at)),
        decreases rows@.len() - i,
    {
        out.push(cell_at_if(&rows[i], at));
        i = i + 1;
    }
    assert(vals(out@) =~= column_cells(rows_view(rows@), opt_int(at)));
    out
}

/// An item's output column. `types` are those of the columns read from the
/// relations. A column item that names no column stands for the row of the
/// relation it names.
pub open spec fn item_column(
    item: ProjectionItem,
    i: nat,
    types: Seq<Seq<char>>,
    t: Table,
    k: Known,
) -> Result<Seq<Val>, Stop> {
    match item {
        ProjectionItem::Literal(v) => Ok(constant(v@, t.rows.len())),
        ProjectionItem::AliasedLiteral(v, _) => Ok(constant(v@, t.rows.len())),
        ProjectionItem::CaseWhenEq { .. } => case_column(item, t.names, t.rows, t.rows.len(), k),
        ProjectionItem::Case { branches, else_result, .. } => searched_column(
            branches@,
            else_result,
            t.names,
            types,
            t.rows,
            t.rows.len(),
            k,
        ),
        _ => match column_of(t.names, source_name(item, i)) {
            Some(p) => Ok(column_cells(t.rows, Some(p))),
            None => if item is Column || item is AliasedColumn {
                relation_rows(t.names, source_name(item, i), t.rows, t.rows.len(), k)
            } else {
                Ok(column_cells(t.rows, None))
            },
        },
    }
}

/// What a relation's name stands for in each of the first `n` rows.
pub open spec fn relation_rows(
    names: Seq<Seq<char>>,
    reference: Seq<char>,
    rows: Seq<Seq<Val>>,
    n: nat,
    k: Known,
) -> Result<Seq<Val>, Stop>
    decreases n,
{
    if n == 0 {
        Ok(Seq::empty())
    } else {
        match relation_rows(names, reference, rows, (n - 1) as nat, k) {
            Err(s) => Err(s),
            Ok(done) => match relation_row(names, reference, rows[n - 1], k) {
                Err(s) => Err(s),
                Ok(v) => Ok(done.push(v)),
            },
        }
    }
}

proof fn lemma_relation_rows_fail(
    names: Seq<Seq<char>>,
    reference: Seq<char>,
    rows: Seq<Seq<Val>>,
    n: nat,
    m: nat,
    k: Known,
)
    requires
        n <= m,
        relation_rows(names, reference, rows, n, k) is Err,
    ensures
        relation_rows(names, reference, rows, m, k) == relation_rows(names, reference, rows, n, k),
    decreases m,
{
    if n < m {
        lemma_relation_rows_fail(names, reference, rows, n, (m - 1) as nat, k);
    }
}

/// The rows of a part of a table are its first rows.
pub proof fn lemma_relation_rows_of_part(
    names: Seq<Seq<char>>,
    reference: Seq<char>,
    rows: Seq<Seq<Val>>,
    cap: int,
    n: nat,
    k: Known,
)
    requires
        cap <= n <= rows.len(),
        0 <= cap,
        relation_rows(names, reference, rows, n, k) is Ok,
    ensures
        relation_rows(names, reference, rows, n, k)->Ok_0.len() == n,
        relation_rows(names, reference, rows.take(cap), cap as nat, k) == Ok::<Seq<Val>, Stop>(
            relation_rows(names, reference, rows, n, k)->Ok_0.take(cap),
        ),
    decreases n, cap,
{
    let all = relation_rows(names, reference, rows, n, k)->Ok_0;
    if n > 0 {
        let before = relation_rows(names, reference, rows, (n - 1) as nat, k)->Ok_0;
        if cap < n {
            lemma_relation_rows_of_part(names, reference, rows, cap, (n - 1) as nat, k);
            assert(all.take(cap) =~= before.take(cap));
        } else {
            lemma_relation_rows_of_part(names, reference, rows, cap - 1, (n - 1) as nat, k);
            assert(before.take(cap - 1) =~= before);
            lemma_relation_rows_shared(
                names,
                reference,
                rows.take(cap),
                rows.take(cap - 1),
                (cap - 1) as nat,
                k,
            );
            assert(all.take(cap) =~= all);
        }
    } else {
        assert(all.take(0) =~= all);
    }
}

proof fn lemma_relation_rows_shared(
    names: Seq<Seq<char>>,
    reference: Seq<char>,
    a: Seq<Seq<Val>>,
    b: Seq<Seq<Val>>,
    n: nat,
    k: Known,
)
    requires
        n <= a.len(),
        n <= b.len(),
        forall|i: int| 0 <= i < n ==> a[i] == b[i],
    ensures
        relation_rows(names, reference, a, n, k) == relation_rows(names, reference, b, n, k),
    decreases n,
{
    if n > 0 {
        lemma_relation_rows_shared(names, reference, a, b, (n - 1) as nat, k);
    }
}

fn read_relation_rows(
    names: &Vec<String>,
    reference: &str,
    rows: &Vec<Vec<Value>>,
    facts: &Facts,
) -> (r: Result<Vec<Value>, Halt>)
    ensures
        list_outcome(r) == relation_rows(
            texts(names@),
            reference@,
            rows_view(rows@),
            rows@.len(),
            facts@,
        ),
{
    let ghost all = rows_view(rows@);
    let mut out: Vec<Value> = Vec::new();
    let mut i: usize = 0;
    assert(vals(out@) =~= Seq::<Val>::empty());
    while i < rows.len()
        invariant
            i <= rows@.len(),
            all == rows_view(rows@),
            relation_rows(texts(names@), reference@, all, i as nat, facts@) == Ok::<
                Seq<Val>,
                Stop,
            >(vals(out@)),
        decreases rows@.len() - i,
    {
        assert(all[i as int] == vals(rows@[i as int]@));
        match ask_relation_row(names, reference, &rows[i], facts) {
            Err(h) => {
                proof {
                    lemma_relation_rows_fail(
                        texts(names@),
                        reference@,
                        all,
                        (i + 1) as nat,
                        rows@.len(),
                        facts@,
                    );
                }
                return Err(h);
            },
            Ok(v) => {
                let ghost before = out@;
                out.push(v);
                assert(vals(out@) =~= vals(before).push(v@));
            },
        }
        i = i + 1;
    }
    Ok(out)
}

fn item_column_values(
    item: &ProjectionItem,
    i: usize,
    types: &Vec<String>,
    names: &Vec<String>,
    rows: &Vec<Vec<Value>>,
    facts: &Facts,
) -> (r: Result<Vec<Value>, Halt>)
    ensures
        list_outcome(r) == item_column(
            *item,
            i as nat,
            texts(types@),
            Table { names: texts(names@), rows: rows_view(rows@) },
            facts@,
        ),
{
    assert(rows_view(rows@).len() == rows@.len());
    match item {
        ProjectionItem::Literal(v) => Ok(repeat(v, rows.len())),
        ProjectionItem::AliasedLiteral(v, _) => Ok(repeat(v, rows.len())),
        ProjectionItem::CaseWhenEq { .. } => case_column_values(item, names, rows, facts),
        ProjectionItem::Case { branches, else_result, .. } => searched_column_values(
            branches,
            else_result,
            names,
            types,
            rows,
            facts,
        ),
        _ => {
            let name = match item {
                ProjectionItem::Column(c) => c.clone(),
                ProjectionItem::AliasedColumn(c, _) => c.clone(),
                _ => {
                    let n = size_text(i);
                    concat2("__expr_", n.as_str())
                },
            };
            let at = find_column(names, name.as_str());
            assert(opt_int(at) == column_of(texts(names@), name@));
            match at {
                Some(_) => Ok(read_column(rows, at)),
                None => match item {
                    ProjectionItem::Column(_) | ProjectionItem::AliasedColumn(
                        _,
                        _,
                    ) => read_relation_rows(names, name.as_str(), rows, facts),
                    _ => Ok(read_column(rows, None)),
                },
            }
        },
    }
}

/// The output columns of the first `n` items.
pub open spec fn item_columns(
    items: Seq<ProjectionItem>,
    n: nat,
    types: Seq<Seq<char>>,
    t: Table,
    k: Known,
) -> Result<Seq<Seq<Val>>, Stop>
    decreases n,
{
    if n == 0 {
        Ok(Seq::empty())
    } else {
        match item_columns(items, (n - 1) as nat, types, t, k) {
            Err(s) => Err(s),
            Ok(done) => match item_column(items[n - 1], (n - 1) as nat, types, t, k) {
                Err(s) => Err(s),
                Ok(c) => Ok(done.push(c)),
            },
        }
    }
}

proof fn lemma_item_columns_fail(
    items: Seq<ProjectionItem>,
    n: nat,
    m: nat,
    types: Seq<Seq<char>>,
    t: Table,
    k: Known,
)
    requires
        n <= m,
        item_columns(items, n, types, t, k) is Err,
    ensures
        item_columns(items, m, types, t, k) == item_columns(items, n, types, t, k),
    decreases m,
{
    if n < m {
        lemma_item_columns_fail(items, n, (m - 1) as nat, types, t, k);
    }
}

/// The `n` rows that columns make.
pub open spec fn rows_of_columns(columns: Seq<Seq<Val>>, n: nat) -> Seq<Seq<Val>> {
    Seq::new(n, |r: int| Seq::new(columns.len(), |c: int| cell(columns[c], r)))
}

/// The `n` rows that columns make.
pub fn make_rows(columns: &Vec<Vec<Value>>, n: usize) -> (r: Vec<Vec<Value>>)
    ensures
        rows_view(r@) == rows_of_columns(rows_view(columns@), n as nat),
        r@.len() == n,
{
    let ghost lists = rows_view(columns@);
    let mut out: Vec<Vec<Value>> = Vec::new();
    let mut i: usize = 0;
    while i < n
        invariant
            i <= n,
            out@.len() == i,
            lists == rows_view(columns@),
            forall|j: int|
                0 <= j < i ==> vals((#[trigger] out@[j])@) == rows_of_columns(lists, n as nat)[j],
        decreases n - i,
    {
        let mut row: Vec<Value> = Vec::new();
        let mut c: usize = 0;
        while c < columns.len()
            invariant
                c <= columns@.len(),
                row@.len() == c,
                forall|j: int|
                    0 <= j < c ==> (#[trigger] row@[j])@ == cell(vals(columns@[j]@), i as int),
            decreases columns@.len() - c,
        {
            row.push(cell_at(&columns[c], i));
            c = c + 1;
        }
        assert(vals(row@) =~= rows_of_columns(lists, n as nat)[i as int]);
        out.push(row);
        i = i + 1;
    }
    assert(rows_view(out@) =~= rows_of_columns(lists, n as nat));
    out
}

/// The first `width` cells of each row, NULL where a row has fewer.
pub open spec fn cut_rows(rows: Seq<Seq<Val>>, width: nat) -> Seq<Seq<Val>> {
    Seq::new(rows.len(), |r: int| Seq::new(width, |c: int| cell(rows[r], c)))
}

fn cut(rows: &Vec<Vec<Value>>, width: usize) -> (r: Vec<Vec<Value>>)
    ensures
        rows_view(r@) == cut_rows(rows_view(rows@), width as nat),
        r@.len() == rows@.len(),
{
    let ghost view = rows_view(rows@);
    let mut out: Vec<Vec<Value>> = Vec::new();
    let mut i: usize = 0;
    while i < rows.len()
        invariant
            i <= rows@.len(),
            out@.len() == i,
            view == rows_view(rows@),
            forall|j: int|
                0 <= j < i ==> vals((#[trigger] out@[j])@) == cut_rows(view, width as nat)[j],
        decreases rows@.len() - i,
    {
        let mut row: Vec<Value> = Vec::new();
        let mut c: usize = 0;
        while c < width
            invariant
                c <= width,
                i < rows@.len(),
                row@.len() == c,
                forall|j: int|
                    0 <= j < c ==> (#[trigger] row@[j])@ == cell(vals(rows@[i as int]@), j),
            decreases width - c,
        {
            row.push(cell_at(&rows[i], c));
            c = c + 1;
        }
        assert(vals(row@) =~= cut_rows(view, width as nat)[i as int]);
        out.push(row);
        i = i + 1;
    }
    assert(rows_view(out@) =~= cut_rows(view, width as nat));
    out
}

/// The output rows of a SELECT list; every column of the input for an empty
/// list.
pub open spec fn projected(
    items: Seq<ProjectionItem>,
    types: Seq<Seq<char>>,
    t: Table,
    k: Known,
) -> Result<Seq<Seq<Val>>, Stop> {
    if items.len() == 0 {
        Ok(cut_rows(t.rows, t.names.len()))
    } else {
        match item_columns(items, items.len(), types, t, k) {
            Err(s) => Err(s),
            Ok(columns) => Ok(rows_of_columns(columns, t.rows.len())),
        }
    }
}

/// The output rows of a SELECT list.
pub fn project(
    items: &Vec<ProjectionItem>,
    types: &Vec<String>,
    names: &Vec<String>,
    rows: &Vec<Vec<Value>>,
    facts: &Facts,
) -> (r: Result<Vec<Vec<Value>>, Halt>)
    ensures
        crate::table_functions::rows_result(r) == projected(
            items@,
            texts(types@),
            Table { names: texts(names@), rows: rows_view(rows@) },
            facts@,
        ),
        r is Ok ==> r->Ok_0@.len() == rows@.len(),
{
    let ghost t = Table { names: texts(names@), rows: rows_view(rows@) };
    if items.len() == 0 {
        assert(texts(names@).len() == names@.len());
        return Ok(cut(rows, names.len()));
    }
    let mut columns: Vec<Vec<Value>> = Vec::new();
    let mut i: usize = 0;
    assert(rows_view(columns@) =~= Seq::<Seq<Val>>::empty());
    while i < items.len()
        invariant
            i <= items@.len(),
            items@.len() > 0,
            t == (Table { names: texts(names@), rows: rows_view(rows@) }),
            item_columns(items@, i as nat, texts(types@), t, facts@) == Ok::<Seq<Seq<Val>>, Stop>(
                rows_view(columns@),
            ),
        decreases items@.len() - i,
    {
        match item_column_values(&items[i], i, types, names, rows, facts) {
            Err(h) => {
                proof {
                    lemma_item_columns_fail(
                        items@,
                        (i + 1) as nat,
                        items@.len(),
                        texts(types@),
                        t,
                        facts@,
                    );
                }
                return Err(h);
            },
            Ok(c) => {
                let ghost before = columns@;
                columns.push(c);
                assert(rows_view(columns@) =~= rows_view(before).push(vals(c@)));
            },
        }
        i = i + 1;
    }
    assert(t.rows.len() == rows@.len());
    Ok(make_rows(&columns, rows.len()))
}

// ---------------------------------------------------------------------------
// Output rows of groups
// ---------------------------------------------------------------------------

/// The first row of each group, empty for an empty group.
pub open spec fn first_rows(groups: Seq<Seq<Seq<Val>>>) -> Seq<Seq<Val>> {
    Seq::new(
        groups.len(),
        |i: int|
            if groups[i].len() > 0 {
                groups[i][0]
            } else {
                Seq::empty()
            },
    )
}

/// The first row of each group, empty for an empty group.
pub fn firsts_of(groups: &Vec<Vec<Vec<Value>>>) -> (r: Vec<Vec<Value>>)
    ensures
        rows_view(r@) == first_rows(groups_view(groups@)),
        r@.len() == groups@.len(),
{
    let ghost view = groups_view(groups@);
    let mut out: Vec<Vec<Value>> = Vec::new();
    let mut i: usize = 0;
    while i < groups.len()
        invariant
            i <= groups@.len(),
            out@.len() == i,
            view == groups_view(groups@),
            forall|j: int| 0 <= j < i ==> vals((#[trigger] out@[j])@) == first_rows(view)[j],
        decreases groups@.len() - i,
    {
        assert(view[i as int] == rows_view(groups@[i as int]@));
        let row: Vec<Value> = if groups[i].len() > 0 {
            clone_values(&groups[i][0])
        } else {
            Vec::new()
        };
        assert(vals(row@) =~= first_rows(view)[i as int]);
        out.push(row);
        i = i + 1;
    }
    assert(rows_view(out@) =~= first_rows(view));
    out
}

/// Whether a grouping column is left out of a grouping set.
pub open spec fn rolled_up(
    column: Seq<char>,
    group_by: Seq<Seq<char>>,
    set: Seq<Seq<char>>,
) -> bool {
    group_by.contains(column) && !set.contains(column)
}

/// The column of a column reference over groups: NULL where the column is
/// rolled up, else what each group's first row holds.
pub open spec fn group_column(
    column: Seq<char>,
    group_by: Seq<Seq<char>>,
    set: Seq<Seq<char>>,
    names: Seq<Seq<char>>,
    groups: Seq<Seq<Seq<Val>>>,
) -> Seq<Val> {
    if rolled_up(column, group_by, set) {
        constant(Val::Null, groups.len())
    } else {
        column_cells(first_rows(groups), column_of(names, column))
    }
}

/// What is evaluated over groups, besides the groups: an expression or a
/// condition, and the values of its subqueries for each group.
pub open spec fn group_subject(about: Val, lists: Seq<Val>) -> Val {
    Val::Array(seq![about, Val::Array(lists)])
}

/// What is evaluated over groups, besides the groups.
pub fn group_subject_of(about: Value, lists: Vec<Value>) -> (r: Value)
    ensures
        r@ == group_subject(about@, vals(lists@)),
{
    let ghost (a, l) = (about@, vals(lists@));
    let parts: Vec<Value> = vec![about, Value::Array(lists)];
    assert(vals(parts@) =~= seq![a, Val::Array(l)]);
    Value::Array(parts)
}

/// The values that an expression's subqueries yield for each group: they read
/// the group's first row.
pub open spec fn group_subqueries(
    e: ScalarExpr,
    names: Seq<Seq<char>>,
    groups: Seq<Seq<Seq<Val>>>,
    k: Known,
) -> Result<Seq<Val>, Stop> {
    if nested(e).len() > 0 {
        subquery_lists(e, names, first_rows(groups), k)
    } else {
        Ok(Seq::empty())
    }
}

/// The values that an expression's subqueries yield for each group.
pub fn ask_group_subqueries(
    e: &ScalarExpr,
    names: &Vec<String>,
    groups: &Vec<Vec<Vec<Value>>>,
    facts: &Facts,
) -> (r: Result<Vec<Value>, Halt>)
    ensures
        list_outcome(r) == group_subqueries(*e, texts(names@), groups_view(groups@), facts@),
{
    if contains_subquery(e) {
        ask_subqueries(e, names, &firsts_of(groups), facts)
    } else {
        let none: Vec<Value> = Vec::new();
        assert(vals(none@) =~= Seq::<Val>::empty());
        Ok(none)
    }
}

/// The value of an expression over each of the groups: aggregates are computed
/// over the group, columns and outer references read its first row.
pub open spec fn group_values(
    e: ScalarExpr,
    names: Seq<Seq<char>>,
    groups: Seq<Seq<Seq<Val>>>,
    k: Known,
) -> Result<Seq<Val>, Stop> {
    match group_subqueries(e, names, groups, k) {
        Err(s) => Err(s),
        Ok(lists) => group_answers(
            TaskView::GroupValues,
            group_subject(expr_code(e), lists),
            names,
            groups,
            k,
        ),
    }
}

/// The value of an expression over each of the groups.
pub fn eval_grouped(
    e: &ScalarExpr,
    names: &Vec<String>,
    groups: &Vec<Vec<Vec<Value>>>,
    facts: &Facts,
) -> (r: Result<Vec<Value>, Halt>)
    ensures
        list_outcome(r) == group_values(*e, texts(names@), groups_view(groups@), facts@),
        r is Ok ==> r->Ok_0@.len() == groups@.len(),
{
    match ask_group_subqueries(e, names, groups, facts) {
        Err(h) => Err(h),
        Ok(lists) => ask_groups(
            Task::GroupValues,
            group_subject_of(code_of_expr(e), lists),
            names,
            groups,
            facts,
        ),
    }
}

/// An item's output column over groups.
pub open spec fn group_item_column(
    item: ProjectionItem,
    group_by: Seq<Seq<char>>,
    set: Seq<Seq<char>>,
    names: Seq<Seq<char>>,
    groups: Seq<Seq<Seq<Val>>>,
    k: Known,
) -> Result<Seq<Val>, Stop> {
    match item {
        ProjectionItem::Literal(v) => Ok(constant(v@, groups.len())),
        ProjectionItem::AliasedLiteral(v, _) => Ok(constant(v@, groups.len())),
        ProjectionItem::Column(c) => Ok(group_column(c@, group_by, set, names, groups)),
        ProjectionItem::AliasedColumn(c, _) => Ok(group_column(c@, group_by, set, names, groups)),
        ProjectionItem::Aggregate(op, inner) => group_answers(
            TaskView::GroupAggregate(op),
            Val::Text(inner@),
            names,
            groups,
            k,
        ),
        ProjectionItem::Subquery { plan, .. } => row_answers(
            TaskView::ScalarSubquery,
            plan_code(*plan),
            names,
            first_rows(groups),
            k,
        ),
        ProjectionItem::Expr { expr, .. } => group_values(expr, names, groups, k),
        _ => Ok(constant(Val::Null, groups.len())),
    }
}

fn group_column_values(
    column: &str,
    group_by: &Vec<String>,
    set: &Vec<String>,
    names: &Vec<String>,
    groups: &Vec<Vec<Vec<Value>>>,
) -> (r: Vec<Value>)
    ensures
        vals(r@) == group_column(
            column@,
            texts(group_by@),
            texts(set@),
            texts(names@),
            groups_view(groups@),
        ),
{
    assert(groups_view(groups@).len() == groups@.len());
    if text_in(group_by, column) && !text_in(set, column) {
        repeat(&Value::Null, groups.len())
    } else {
        let firsts = firsts_of(groups);
        let at = find_column(names, column);
        assert(opt_int(at) == column_of(texts(names@), column@));
        read_column(&firsts, at)
    }
}

fn group_item_values(
    item: &ProjectionItem,
    group_by: &Vec<String>,
    set: &Vec<String>,
    names: &Vec<String>,
    groups: &Vec<Vec<Vec<Value>>>,
    facts: &Facts,
) -> (r: Result<Vec<Value>, Halt>)
    ensures
        list_outcome(r) == group_item_column(
            *item,
            texts(group_by@),
            texts(set@),
            texts(names@),
            groups_view(groups@),
            facts@,
        ),
{
    assert(groups_view(groups@).len() == groups@.len());
    match item {
        ProjectionItem::Literal(v) => Ok(repeat(v, groups.len())),
        ProjectionItem::AliasedLiteral(v, _) => Ok(repeat(v, groups.len())),
        // A grouping column not present in this set is rolled up to NULL
        // (subtotal / grand-total row).
        ProjectionItem::Column(c) => Ok(
            group_column_values(c.as_str(), group_by, set, names, groups),
        ),
        ProjectionItem::AliasedColumn(c, _) => Ok(
            group_column_values(c.as_str(), group_by, set, names, groups),
        ),
        ProjectionItem::Aggregate(op, inner) => ask_groups(
            Task::GroupAggregate(*op),
            Value::Text(inner.clone()),
            names,
            groups,
            facts,
        ),
        // Outer references read the group's first row.
        ProjectionItem::Subquery { plan, .. } => ask_rows(
            Task::ScalarSubquery,
            code_of_plan(plan),
            names,
            &firsts_of(groups),
            facts,
        ),
        ProjectionItem::Expr { expr, .. } => eval_grouped(expr, names, groups, facts),
        _ => Ok(repeat(&Value::Null, groups.len())),
    }
}

/// The output columns of the first `n` items over groups.
pub open spec fn group_item_columns(
    items: Seq<ProjectionItem>,
    n: nat,
    group_by: Seq<Seq<char>>,
    set: Seq<Seq<char>>,
    names: Seq<Seq<char>>,
    groups: Seq<Seq<Seq<Val>>>,
    k: Known,
) -> Result<Seq<Seq<Val>>, Stop>
    decreases n,
{
    if n == 0 {
        Ok(Seq::empty())
    } else {
        match group_item_columns(items, (n - 1) as nat, group_by, set, names, groups, k) {
            Err(s) => Err(s),
            Ok(done) => match group_item_column(
                items[n - 1],
                group_by,
                set,
                names,
                groups,
                k,
            ) {
                Err(s) => Err(s),
                Ok(c) => Ok(done.push(c)),
            },
        }
    }
}

proof fn lemma_group_items_fail(
    items: Seq<ProjectionItem>,
    n: nat,
    m: nat,
    group_by: Seq<Seq<char>>,
    set: Seq<Seq<char>>,
    names: Seq<Seq<char>>,
    groups: Seq<Seq<Seq<Val>>>,
    k: Known,
)
    requires
        n <= m,
        group_item_columns(items, n, group_by, set, names, groups, k) is Err,
    ensures
        group_item_columns(items, m, group_by, set, names, groups, k) == group_item_columns(
            items,
            n,
            group_by,
            set,
            names,
            groups,
            k,
        ),
    decreases m,
{
    if n < m {
        lemma_group_items_fail(items, n, (m - 1) as nat, group_by, set, names, groups, k);
    }
}

/// The output rows of groups.
pub open spec fn group_projected(
    items: Seq<ProjectionItem>,
    group_by: Seq<Seq<char>>,
    set: Seq<Seq<char>>,
    names: Seq<Seq<char>>,
    groups: Seq<Seq<Seq<Val>>>,
    k: Known,
) -> Result<Seq<Seq<Val>>, Stop> {
    match group_item_columns(items, items.len(), group_by, set, names, groups, k) {
        Err(s) => Err(s),
        Ok(columns) => Ok(rows_of_columns(columns, groups.len())),
    }
}

/// The output rows of groups.
pub fn project_groups(
    items: &Vec<ProjectionItem>,
    group_by: &Vec<String>,
    set: &Vec<String>,
    names: &Vec<String>,
    groups: &Vec<Vec<Vec<Value>>>,
    facts: &Facts,
) -> (r: Result<Vec<Vec<Value>>, Halt>)
    ensures
        crate::table_functions::rows_result(r) == group_projected(
            items@,
            texts(group_by@),
            texts(set@),
            texts(names@),
            groups_view(groups@),
            facts@,
        ),
        r is Ok ==> r->Ok_0@.len() == groups@.len(),
{
    let ghost (g, s, c, v) = (
        texts(group_by@),
        texts(set@),
        texts(names@),
        groups_view(groups@),
    );
    let mut columns: Vec<Vec<Value>> = Vec::new();
    let mut i: usize = 0;
    assert(rows_view(columns@) =~= Seq::<Seq<Val>>::empty());
    while i < items.len()
        invariant
            i <= items@.len(),
            g == texts(group_by@),
            s == texts(set@),
            c == texts(names@),
            v == groups_view(groups@),
            group_item_columns(items@, i as nat, g, s, c, v, facts@) == Ok::<Seq<Seq<Val>>, Stop>(
                rows_view(columns@),
            ),
        decreases items@.len() - i,
    {
        match group_item_values(&items[i], group_by, set, names, groups, facts) {
            Err(h) => {
                proof {
                    lemma_group_items_fail(
                        items@,
                        (i + 1) as nat,
                        items@.len(),
                        g,
                        s,
                        c,
                        v,
                        facts@,
                    );
                }
                return Err(h);
            },
            Ok(values) => {
                let ghost before = columns@;
                columns.push(values);
                assert(rows_view(columns@) =~= rows_view(before).push(vals(values@)));
            },
        }
        i = i + 1;
    }
    assert(v.len() == groups@.len());
    Ok(make_rows(&columns, groups.len()))
}

// ---------------------------------------------------------------------------
// Laws
// ---------------------------------------------------------------------------

/// A SELECT list makes one row of each input row, as wide as the list.
pub proof fn law_projection_keeps_the_row_count(
    items: Seq<ProjectionItem>,
    types: Seq<Seq<char>>,
    t: Table,
    k: Known,
)
    requires
        items.len() > 0,
        projected(items, types, t, k) is Ok,
    ensures
        projected(items, types, t, k)->Ok_0.len() == t.rows.len(),
        forall|r: int|
            0 <= r < t.rows.len() ==> (#[trigger] projected(items, types, t, k)->Ok_0[r]).len()
                == items.len(),
{
    lemma_item_column_count(items, items.len(), types, t, k);
}

pub proof fn lemma_item_column_count(
    items: Seq<ProjectionItem>,
    n: nat,
    types: Seq<Seq<char>>,
    t: Table,
    k: Known,
)
    requires
        item_columns(items, n, types, t, k) is Ok,
    ensures
        item_columns(items, n, types, t, k)->Ok_0.len() == n,
    decreases n,
{
    if n > 0 {
        lemma_item_column_count(items, (n - 1) as nat, types, t, k);
    }
}

/// A searched `CASE` gives the result of a branch whose condition holds where
/// those before it do not.
pub proof fn law_case_takes_the_first_branch_that_holds(
    branches: Seq<(Predicate, Operand)>,
    else_result: Option<Operand>,
    names: Seq<Seq<char>>,
    types: Seq<Seq<char>>,
    row: Seq<Val>,
    from: int,
    i: int,
    k: Known,
)
    requires
        0 <= from <= i < branches.len(),
        forall|j: int|
            from <= j <= i ==> ({
                let verdict = condition_verdicts(
                    Some(FilterExpr::Predicate((#[trigger] branches[j]).0)),
                    names,
                    types,
                    seq![row],
                    k,
                );
                verdict is Ok && is_true(cell(verdict->Ok_0, 0)) == (j == i)
            }),
    ensures
        case_value(branches, else_result, from, names, types, row, k) == asked(
            k,
            operand_request("VARCHAR"@, branches[i].1, names, types, row),
        ),
    decreases i - from,
{
    assert(condition_verdicts(
        Some(FilterExpr::Predicate(branches[from].0)),
        names,
        types,
        seq![row],
        k,
    ) is Ok);
    if from < i {
        law_case_takes_the_first_branch_that_holds(
            branches,
            else_result,
            names,
            types,
            row,
            from + 1,
            i,
            k,
        );
    }
}

/// A grouping column that a grouping set leaves out is NULL in every row of
/// that set.
pub proof fn law_rolled_up_columns_are_null(
    column: Seq<char>,
    group_by: Seq<Seq<char>>,
    set: Seq<Seq<char>>,
    names: Seq<Seq<char>>,
    groups: Seq<Seq<Seq<Val>>>,
    i: int,
)
    requires
        group_by.contains(column),
        !set.contains(column),
        0 <= i < groups.len(),
    ensures
        group_column(column, group_by, set, names, groups)[i] == Val::Null,
{
}

} // verus!
