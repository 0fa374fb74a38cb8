//! Subqueries inside expressions, and expressions over whole batches of rows.
//!
//! Expression evaluation is pure, so a subquery in an expression is run first,
//! once per row, and replaced by its value before the expression is evaluated.
use vstd::prelude::*;
use crate::cells::{
    ask_relation_row, ask_rows, cell, cell_at, opt_int, relation_row, row_answers,
};
use crate::codes::{
    code_of_expr, expr_code, filter_code, law_branch_codes_tell_apart, law_expr_codes_tell_apart,
    law_expr_list_codes_tell_apart, law_filter_codes_tell_apart, law_operand_codes_tell_apart,
    law_operand_list_codes_tell_apart, law_order_codes_tell_apart, law_predicate_codes_tell_apart,
    operand_code,
};
use crate::eval::{bound, eval, eval_scalar_in, Bindings};
use crate::expr::{
    branch_kids, exprs, group_expr_views, kids, law_rebuilt_with_own_kids, lemma_kids_smaller,
    nothing, opt_kid, rebuilt, refs, ExprView,
};
use crate::facts::{
    asked, list_outcome, on_one, on_three, outcome, Facts, Halt, Known, Stop, Task, TaskView,
};
use crate::names::{column_of, find_column};
use crate::plan_types::{operands, FilterExpr, LogicalPlan, ScalarExpr, SubqueryKind};
use crate::plan_views::filter_view;
use crate::rows::QueryOutput;
use crate::text::{clone_texts, texts};
use crate::value::{group_value_views, rows_view, vals, Val, Value};
use crate::window::{find_references, opt_ints, reference_positions};

verus! {

broadcast use {group_expr_views, group_value_views};

/// Lists, one after the other.
pub open spec fn flat<T>(s: Seq<Seq<T>>) -> Seq<T>
    decreases s.len(),
{
    if s.len() == 0 {
        Seq::empty()
    } else {
        flat(s.drop_last()) + s.last()
    }
}

proof fn lemma_flat_part<T>(s: Seq<Seq<T>>, i: int)
    requires
        0 <= i < s.len(),
    ensures
        flat(s.take(i)).len() + s[i].len() <= flat(s).len(),
        flat(s.take(i + 1)) == flat(s.take(i)) + s[i],
    decreases s.len(),
{
    assert(s.take(i + 1).drop_last() =~= s.take(i));
    if i == s.len() - 1 {
        assert(s.take(i + 1) =~= s);
    } else {
        lemma_flat_part(s.drop_last(), i);
        assert(s.drop_last().take(i) =~= s.take(i));
        assert(s.drop_last().take(i + 1) =~= s.take(i + 1));
    }
}

// ---------------------------------------------------------------------------
// What an expression refers to
// ---------------------------------------------------------------------------

/// The columns an expression refers to, in the order of their occurrence.
pub open spec fn referenced(e: ScalarExpr) -> Seq<Seq<char>>
    decreases e, 1int,
{
    match e {
        ScalarExpr::Column(name) => seq![name@],
        _ => flat(kids_referenced(e)),
    }
}

/// The columns each sub-expression refers to.
pub open spec fn kids_referenced(e: ScalarExpr) -> Seq<Seq<Seq<char>>>
    decreases e, 0int,
{
    Seq::new(
        kids(e).len(),
        |i: int|
            if 0 <= i < kids(e).len() && decreases_to!(e => kids(e)[i]) {
                referenced(kids(e)[i])
            } else {
                Seq::empty()
            },
    )
}

proof fn lemma_referenced(e: ScalarExpr, i: int)
    requires
        0 <= i < kids(e).len(),
    ensures
        kids_referenced(e)[i] == referenced(kids(e)[i]),
{
    lemma_kids_smaller(e, i);
}

/// The columns an expression refers to.
pub fn column_references(expr: &ScalarExpr) -> (r: Vec<String>)
    ensures
        texts(r@) == referenced(*expr),
    decreases expr,
{
    if let ScalarExpr::Column(name) = expr {
        let out: Vec<String> = vec![name.clone()];
        assert(texts(out@) =~= seq![name@]);
        return out;
    }
    let children = expr.children();
    let ghost parts = kids_referenced(*expr);
    let mut out: Vec<String> = Vec::new();
    let mut i: usize = 0;
    assert(parts.take(0) =~= Seq::<Seq<Seq<char>>>::empty());
    assert(texts(out@) =~= Seq::<Seq<char>>::empty());
    while i < children.len()
        invariant
            children@ == refs(kids(*expr)),
            i <= children@.len(),
            parts == kids_referenced(*expr),
            texts(out@) == flat(parts.take(i as int)),
        decreases children@.len() - i,
    {
        proof {
            lemma_kids_smaller(*expr, i as int);
            lemma_referenced(*expr, i as int);
            lemma_flat_part(parts, i as int);
        }
        let more = column_references(children[i]);
        out = crate::join::concat_texts(&out, &more);
        i = i + 1;
    }
    assert(parts.take(i as int) =~= parts);
    out
}

/// The subqueries of an expression, in the order of their occurrence.
pub open spec fn nested(e: ScalarExpr) -> Seq<(LogicalPlan, SubqueryKind)>
    decreases e, 1int,
{
    match e {
        ScalarExpr::Subquery { plan, kind } => seq![(*plan.0, kind)],
        _ => flat(kids_nested(e)),
    }
}

/// The subqueries of each sub-expression.
pub open spec fn kids_nested(e: ScalarExpr) -> Seq<Seq<(LogicalPlan, SubqueryKind)>>
    decreases e, 0int,
{
    Seq::new(
        kids(e).len(),
        |i: int|
            if 0 <= i < kids(e).len() && decreases_to!(e => kids(e)[i]) {
                nested(kids(e)[i])
            } else {
                Seq::empty()
            },
    )
}

proof fn lemma_nested(e: ScalarExpr, i: int)
    requires
        0 <= i < kids(e).len(),
    ensures
        kids_nested(e)[i] == nested(kids(e)[i]),
{
    lemma_kids_smaller(e, i);
}

/// Plans with what they are used for.
pub open spec fn plan_kinds(s: Seq<(&LogicalPlan, SubqueryKind)>) -> Seq<
    (LogicalPlan, SubqueryKind),
> {
    Seq::new(s.len(), |i: int| (*s[i].0, s[i].1))
}

/// The subqueries of an expression, in the order of their occurrence.
pub fn subqueries_of(expr: &ScalarExpr) -> (r: Vec<(&LogicalPlan, SubqueryKind)>)
    ensures
        plan_kinds(r@) == nested(*expr),
    decreases expr,
{
    if let ScalarExpr::Subquery { plan, kind } = expr {
        let out: Vec<(&LogicalPlan, SubqueryKind)> = vec![(&*plan.0, *kind)];
        assert(plan_kinds(out@) =~= seq![(*plan.0, *kind)]);
        return out;
    }
    let children = expr.children();
    let ghost parts = kids_nested(*expr);
    let mut out: Vec<(&LogicalPlan, SubqueryKind)> = Vec::new();
    let mut i: usize = 0;
    assert(parts.take(0) =~= Seq::<Seq<(LogicalPlan, SubqueryKind)>>::empty());
    assert(plan_kinds(out@) =~= Seq::<(LogicalPlan, SubqueryKind)>::empty());
    while i < children.len()
        invariant
            children@ == refs(kids(*expr)),
            i <= children@.len(),
            parts == kids_nested(*expr),
            plan_kinds(out@) == flat(parts.take(i as int)),
        decreases children@.len() - i,
    {
        proof {
            lemma_kids_smaller(*expr, i as int);
            lemma_nested(*expr, i as int);
            lemma_flat_part(parts, i as int);
        }
        let more = subqueries_of(children[i]);
        let ghost start = plan_kinds(out@);
        let ghost all = plan_kinds(more@);
        let mut j: usize = 0;
        assert(start + all.take(0) =~= start);
        while j < more.len()
            invariant
                j <= more@.len(),
                all == plan_kinds(more@),
                plan_kinds(out@) == start + all.take(j as int),
            decreases more@.len() - j,
        {
            let ghost before = out@;
            out.push(more[j]);
            assert(plan_kinds(out@) =~= plan_kinds(before).push(all[j as int]));
            j = j + 1;
            assert(start + all.take(j as int) =~= (start + all.take(j - 1)).push(all[j - 1]));
        }
        assert(all.take(j as int) =~= all);
        i = i + 1;
    }
    assert(parts.take(i as int) =~= parts);
    out
}

/// Whether an expression contains a subquery to run first.
pub fn contains_subquery(expr: &ScalarExpr) -> (r: bool)
    ensures
        r == (nested(*expr).len() > 0),
{
    let found = subqueries_of(expr);
    assert(plan_kinds(found@).len() == found@.len());
    found.len() > 0
}

// ---------------------------------------------------------------------------
// Replacing subqueries by their values
// ---------------------------------------------------------------------------

/// An expression with its subqueries replaced by the values from the one at
/// `base` on.
pub open spec fn resolved(e: ScalarExpr, values: Seq<Val>, base: int) -> ExprView
    decreases e, 1int,
{
    match e {
        ScalarExpr::Subquery { .. } => ExprView::Literal(cell(values, base)),
        _ => rebuilt(e@, kids_resolved(e, values, base)),
    }
}

/// The sub-expressions with their subqueries replaced.
pub open spec fn kids_resolved(e: ScalarExpr, values: Seq<Val>, base: int) -> Seq<ExprView>
    decreases e, 0int,
{
    Seq::new(
        kids(e).len(),
        |i: int|
            if 0 <= i < kids(e).len() && decreases_to!(e => kids(e)[i]) {
                resolved(kids(e)[i], values, base + flat(kids_nested(e).take(i)).len())
            } else {
                nothing()
            },
    )
}

proof fn lemma_resolved(e: ScalarExpr, values: Seq<Val>, base: int, i: int)
    requires
        0 <= i < kids(e).len(),
    ensures
        kids_resolved(e, values, base)[i] == resolved(
            kids(e)[i],
            values,
            base + flat(kids_nested(e).take(i)).len(),
        ),
{
    lemma_kids_smaller(e, i);
}

/// An expression without subqueries is left as it is.
pub proof fn law_resolving_without_subqueries(e: ScalarExpr, values: Seq<Val>, base: int)
    requires
        nested(e).len() == 0,
    ensures
        resolved(e, values, base) == e@,
    decreases e,
{
    if !(e is Subquery) {
        let ks = kids_resolved(e, values, base);
        assert forall|i: int| 0 <= i < kids(e).len() implies ks[i] == exprs(kids(e))[i] by {
            lemma_kids_smaller(e, i);
            lemma_nested(e, i);
            lemma_resolved(e, values, base, i);
            lemma_flat_part(kids_nested(e), i);
            law_resolving_without_subqueries(
                kids(e)[i],
                values,
                base + flat(kids_nested(e).take(i)).len(),
            );
        }
        assert(ks =~= exprs(kids(e)));
        law_rebuilt_with_own_kids(e);
    }
}

fn resolve_from(expr: &ScalarExpr, values: &Vec<Value>, base: usize) -> (r: (ScalarExpr, usize))
    requires
        base + nested(*expr).len() <= usize::MAX,
    ensures
        r.0@ == resolved(*expr, vals(values@), base as int),
        r.1 == base + nested(*expr).len(),
    decreases expr,
{
    if let ScalarExpr::Subquery { .. } = expr {
        return (ScalarExpr::Literal(cell_at(values, base)), base + 1);
    }
    let children = expr.children();
    let ghost counts = kids_nested(*expr);
    let ghost want = kids_resolved(*expr, vals(values@), base as int);
    let mut made: Vec<ScalarExpr> = Vec::new();
    let mut at: usize = base;
    let mut i: usize = 0;
    assert(counts.take(0) =~= Seq::<Seq<(LogicalPlan, SubqueryKind)>>::empty());
    while i < children.len()
        invariant
            children@ == refs(kids(*expr)),
            i <= children@.len(),
            made@.len() == i,
            counts == kids_nested(*expr),
            want == kids_resolved(*expr, vals(values@), base as int),
            base + flat(counts).len() <= usize::MAX,
            at == base + flat(counts.take(i as int)).len(),
            forall|j: int| 0 <= j < i ==> (#[trigger] made@[j])@ == want[j],
        decreases children@.len() - i,
    {
        proof {
            lemma_kids_smaller(*expr, i as int);
            lemma_nested(*expr, i as int);
            lemma_resolved(*expr, vals(values@), base as int, i as int);
            lemma_flat_part(counts, i as int);
        }
        let (kid, next) = resolve_from(children[i], values, at);
        made.push(kid);
        at = next;
        i = i + 1;
    }
    proof {
        assert(counts.take(i as int) =~= counts);
        assert(exprs(made@) =~= want);
    }
    (expr.with_children(made), at)
}

/// `expr` with each subquery replaced by its value.
pub fn resolve_subqueries(expr: &ScalarExpr, values: &Vec<Value>) -> (r: ScalarExpr)
    ensures
        r@ == resolved(*expr, vals(values@), 0),
{
    let found = subqueries_of(expr);
    assert(plan_kinds(found@).len() == found@.len());
    let total: usize = found.len();
    let (out, _count) = resolve_from(expr, values, 0);
    out
}

/// The first cell of a row, NULL for an empty row.
pub open spec fn first_cells(rows: Seq<Seq<Val>>) -> Seq<Val> {
    Seq::new(rows.len(), |i: int| cell(rows[i], 0))
}

/// What a subquery yields.
pub open spec fn yielded(kind: SubqueryKind, columns: nat, rows: Seq<Seq<Val>>) -> Result<
    Val,
    Seq<char>,
> {
    match kind {
        SubqueryKind::Exists => Ok(Val::Bool(rows.len() > 0)),
        SubqueryKind::Array => if columns != 1 {
            Err("subquery must return only one column"@)
        } else {
            Ok(Val::Array(first_cells(rows)))
        },
        SubqueryKind::Scalar => if columns != 1 {
            Err("subquery must return only one column"@)
        } else if rows.len() == 0 {
            Ok(Val::Null)
        } else if rows.len() == 1 {
            Ok(cell(rows[0], 0))
        } else {
            Err("more than one row returned by a subquery used as an expression"@)
        },
    }
}

/// A subquery's value, given its output.
pub fn subquery_value(kind: SubqueryKind, out: &QueryOutput) -> (r: Result<Value, String>)
    ensures
        crate::facts::answer_view(r) == yielded(
            kind,
            out.columns@.len(),
            crate::rows::row_views(out.rows@),
        ),
{
    match kind {
        SubqueryKind::Exists => {
            return Ok(Value::Bool(out.rows.len() > 0));
        },
        _ => {},
    }
    if out.columns.len() != 1 {
        return Err("subquery must return only one column".to_owned());
    }
    match kind {
        SubqueryKind::Array => {
            let mut items: Vec<Value> = Vec::new();
            let mut i: usize = 0;
            while i < out.rows.len()
                invariant
                    i <= out.rows@.len(),
                    items@.len() == i,
                    forall|j: int| 0 <= j < i ==> (#[trigger] items@[j])@ == cell(out.rows@[j]@, 0),
                decreases out.rows@.len() - i,
            {
                items.push(cell_at(&out.rows[i].values, 0));
                i = i + 1;
            }
            assert(vals(items@) =~= first_cells(crate::rows::row_views(out.rows@)));
            Ok(Value::Array(items))
        },
        _ => {
            if out.rows.len() == 0 {
                Ok(Value::Null)
            } else if out.rows.len() == 1 {
                Ok(cell_at(&out.rows[0].values, 0))
            } else {
                Err("more than one row returned by a subquery used as an expression".to_owned())
            }
        },
    }
}

// ---------------------------------------------------------------------------
// Expressions over rows
// ---------------------------------------------------------------------------

/// The column, operator, and key that an answer lists.
pub open spec fn access_parts(v: Val) -> Option<(Seq<char>, Seq<char>, Seq<char>)> {
    match v {
        Val::Array(parts) => if parts.len() == 3 {
            match (parts[0], parts[1], parts[2]) {
                (Val::Text(column), Val::Text(operator), Val::Text(key)) => Some(
                    (column, operator, key),
                ),
                _ => None,
            }
        } else {
            None
        },
        _ => None,
    }
}

/// What a reference that is no column reads in a row: a JSON access reads the
/// column it names, and a relation's name its row.
pub open spec fn other_reference_value(
    names: Seq<Seq<char>>,
    reference: Seq<char>,
    row: Seq<Val>,
    k: Known,
) -> Result<Val, Stop> {
    match asked(k, on_one(TaskView::JsonReference, Val::Text(reference))) {
        Err(s) => Err(s),
        Ok(v) => match access_parts(v) {
            None => relation_row(names, reference, row, k),
            Some((column, operator, key)) => match column_of(names, column) {
                Some(i) => if i < row.len() {
                    asked(
                        k,
                        on_three(
                            TaskView::JsonExtract,
                            row[i],
                            Val::Text(operator),
                            Val::Text(key),
                        ),
                    )
                } else {
                    Ok(Val::Null)
                },
                None => Ok(Val::Null),
            },
        },
    }
}

/// The value of a reference in a row, given the position of the column of that
/// name.
pub open spec fn reference_value(
    names: Seq<Seq<char>>,
    reference: Seq<char>,
    at: Option<int>,
    row: Seq<Val>,
    k: Known,
) -> Result<Val, Stop> {
    match at {
        Some(i) => if 0 <= i < row.len() {
            Ok(row[i])
        } else {
            other_reference_value(names, reference, row, k)
        },
        None => other_reference_value(names, reference, row, k),
    }
}

/// The values of the first `n` references in a row.
pub open spec fn reference_values(
    names: Seq<Seq<char>>,
    references: Seq<Seq<char>>,
    at: Seq<Option<int>>,
    row: Seq<Val>,
    n: nat,
    k: Known,
) -> Result<Seq<Val>, Stop>
    decreases n,
{
    if n == 0 {
        Ok(Seq::empty())
    } else {
        match reference_values(names, references, at, row, (n - 1) as nat, k) {
            Err(s) => Err(s),
            Ok(done) => match reference_value(names, references[n - 1], at[n - 1], row, k) {
                Err(s) => Err(s),
                Ok(v) => Ok(done.push(v)),
            },
        }
    }
}

/// The value of an expression in a row, with its references at the given
/// positions and its subqueries' values given.
pub open spec fn row_value(
    e: ScalarExpr,
    names: Seq<Seq<char>>,
    at: Seq<Option<int>>,
    row: Seq<Val>,
    subqueries: Seq<Val>,
    k: Known,
) -> Result<Val, Stop> {
    match reference_values(names, referenced(e), at, row, referenced(e).len(), k) {
        Err(s) => Err(s),
        Ok(values) => eval(resolved(e, subqueries, 0), bound(referenced(e), values), k),
    }
}

/// The value of an expression in a row, whose subqueries are NULL.
pub open spec fn scalar_value(
    e: ScalarExpr,
    names: Seq<Seq<char>>,
    row: Seq<Val>,
    k: Known,
) -> Result<Val, Stop> {
    match reference_positions(names, referenced(e), k) {
        Err(s) => Err(s),
        Ok(at) => row_value(e, names, at, row, Seq::empty(), k),
    }
}

/// The values that a row's subqueries yield, as an answer lists them.
pub open spec fn answered_list(v: Val) -> Seq<Val> {
    match v {
        Val::Array(items) => items,
        _ => Seq::empty(),
    }
}

/// The values of an expression in the first `n` rows.
pub open spec fn row_values(
    e: ScalarExpr,
    names: Seq<Seq<char>>,
    at: Seq<Option<int>>,
    rows: Seq<Seq<Val>>,
    subqueries: Seq<Val>,
    n: nat,
    k: Known,
) -> Result<Seq<Val>, Stop>
    decreases n,
{
    if n == 0 {
        Ok(Seq::empty())
    } else {
        match row_values(e, names, at, rows, subqueries, (n - 1) as nat, k) {
            Err(s) => Err(s),
            Ok(done) => match row_value(
                e,
                names,
                at,
                rows[n - 1],
                answered_list(cell(subqueries, n - 1)),
                k,
            ) {
                Err(s) => Err(s),
                Ok(v) => Ok(done.push(v)),
            },
        }
    }
}

/// The values that an expression's subqueries yield for each of the rows, as an
/// answer lists them.
pub open spec fn subquery_lists(
    e: ScalarExpr,
    names: Seq<Seq<char>>,
    rows: Seq<Seq<Val>>,
    k: Known,
) -> Result<Seq<Val>, Stop> {
    row_answers(TaskView::Subqueries, expr_code(e), names, rows, k)
}

/// The values that an expression's subqueries yield for each of the rows.
pub fn ask_subqueries(
    expr: &ScalarExpr,
    names: &Vec<String>,
    rows: &Vec<Vec<Value>>,
    facts: &Facts,
) -> (r: Result<Vec<Value>, Halt>)
    ensures
        list_outcome(r) == subquery_lists(*expr, texts(names@), rows_view(rows@), facts@),
        r is Ok ==> r->Ok_0@.len() == rows@.len(),
{
    ask_rows(Task::Subqueries, code_of_expr(expr), names, rows, facts)
}

/// The values of an expression in each of the rows.
pub open spec fn column_values(
    e: ScalarExpr,
    names: Seq<Seq<char>>,
    rows: Seq<Seq<Val>>,
    k: Known,
) -> Result<Seq<Val>, Stop> {
    if rows.len() == 0 {
        Ok(Seq::empty())
    } else {
        match reference_positions(names, referenced(e), k) {
            Err(s) => Err(s),
            Ok(at) => if nested(e).len() > 0 {
                match subquery_lists(e, names, rows, k) {
                    Err(s) => Err(s),
                    Ok(values) => row_values(e, names, at, rows, values, rows.len(), k),
                }
            } else {
                row_values(e, names, at, rows, Seq::empty(), rows.len(), k)
            },
        }
    }
}

proof fn lemma_row_values_fail(
    e: ScalarExpr,
    names: Seq<Seq<char>>,
    at: Seq<Option<int>>,
    rows: Seq<Seq<Val>>,
    subqueries: Seq<Val>,
    n: nat,
    m: nat,
    k: Known,
)
    requires
        n <= m,
        row_values(e, names, at, rows, subqueries, n, k) is Err,
    ensures
        row_values(e, names, at, rows, subqueries, m, k) == row_values(
            e,
            names,
            at,
            rows,
            subqueries,
            n,
            k,
        ),
    decreases m,
{
    if n < m {
        lemma_row_values_fail(e, names, at, rows, subqueries, n, (m - 1) as nat, k);
    }
}

proof fn lemma_reference_values_fail(
    names: Seq<Seq<char>>,
    references: Seq<Seq<char>>,
    at: Seq<Option<int>>,
    row: Seq<Val>,
    n: nat,
    m: nat,
    k: Known,
)
    requires
        n <= m,
        reference_values(names, references, at, row, n, k) is Err,
    ensures
        reference_values(names, references, at, row, m, k) == reference_values(
            names,
            references,
            at,
            row,
            n,
            k,
        ),
    decreases m,
{
    if n < m {
        lemma_reference_values_fail(names, references, at, row, n, (m - 1) as nat, k);
    }
}

fn read_other_reference(names: &Vec<String>, reference: &str, row: &Vec<Value>, facts: &Facts) -> (r:
    Result<Value, Halt>)
    ensures
        outcome(r) == other_reference_value(texts(names@), reference@, vals(row@), facts@),
{
    let parsed = match facts.ask_one(Task::JsonReference, &Value::Text(reference.to_owned())) {
        Ok(v) => v,
        Err(h) => {
            return Err(h);
        },
    };
    let parts = match &parsed {
        Value::Array(parts) => parts,
        _ => {
            return ask_relation_row(names, reference, row, facts);
        },
    };
    assert(parsed@ == Val::Array(vals(parts@)));
    if parts.len() != 3 {
        return ask_relation_row(names, reference, row, facts);
    }
    assert(vals(parts@)[0] == parts@[0]@);
    assert(vals(parts@)[1] == parts@[1]@);
    assert(vals(parts@)[2] == parts@[2]@);
    match (&parts[0], &parts[1], &parts[2]) {
        (Value::Text(column), Value::Text(operator), Value::Text(key)) => {
            match find_column(names, column.as_str()) {
                Some(i) => {
                    if i < row.len() {
                        assert(vals(row@)[i as int] == row@[i as int]@);
                        facts.ask_three(
                            Task::JsonExtract,
                            row[i].duplicate(),
                            Value::Text(operator.clone()),
                            Value::Text(key.clone()),
                        )
                    } else {
                        Ok(Value::Null)
                    }
                },
                None => Ok(Value::Null),
            }
        },
        _ => ask_relation_row(names, reference, row, facts),
    }
}

fn read_references(
    names: &Vec<String>,
    references: &Vec<String>,
    at: &Vec<Option<usize>>,
    row: &Vec<Value>,
    facts: &Facts,
) -> (r: Result<Vec<Value>, Halt>)
    requires
        at@.len() == references@.len(),
    ensures
        list_outcome(r) == reference_values(
            texts(names@),
            texts(references@),
            opt_ints(at@),
            vals(row@),
            references@.len(),
            facts@,
        ),
{
    let ghost found = opt_ints(at@);
    let ghost wanted = texts(references@);
    let mut out: Vec<Value> = Vec::new();
    let mut i: usize = 0;
    assert(vals(out@) =~= Seq::<Val>::empty());
    while i < references.len()
        invariant
            i <= references@.len() == at@.len(),
            found == opt_ints(at@),
            wanted == texts(references@),
            reference_values(texts(names@), wanted, found, vals(row@), i as nat, facts@) == Ok::<
                Seq<Val>,
                Stop,
            >(vals(out@)),
        decreases references@.len() - i,
    {
        assert(found[i as int] == opt_int(at@[i as int]));
        assert(wanted[i as int] == references@[i as int]@);
        let direct: Option<usize> = match at[i] {
            Some(p) => if p < row.len() {
                Some(p)
            } else {
                None
            },
            None => None,
        };
        let read = match direct {
            Some(p) => {
                assert(vals(row@)[p as int] == row@[p as int]@);
                Ok(row[p].duplicate())
            },
            None => read_other_reference(names, references[i].as_str(), row, facts),
        };
        match read {
            Err(h) => {
                proof {
                    lemma_reference_values_fail(
                        texts(names@),
                        wanted,
                        found,
                        vals(row@),
                        (i + 1) as nat,
                        references@.len(),
                        facts@,
                    );
                }
                return Err(h);
            },
            Ok(v) => {
                let ghost before = out@;
                out.push(v);
                assert(vals(out@) =~= vals(before).push(v@));
            },
        }
        i = i + 1;
    }
    Ok(out)
}

fn eval_row(
    expr: &ScalarExpr,
    names: &Vec<String>,
    references: &Vec<String>,
    at: &Vec<Option<usize>>,
    row: &Vec<Value>,
    subqueries: &Vec<Value>,
    facts: &Facts,
) -> (r: Result<Value, Halt>)
    requires
        texts(references@) == referenced(*expr),
        at@.len() == references@.len(),
    ensures
        outcome(r) == row_value(
            *expr,
            texts(names@),
            opt_ints(at@),
            vals(row@),
            vals(subqueries@),
            facts@,
        ),
{
    assert(texts(references@).len() == references@.len());
    let read = match read_references(names, references, at, row, facts) {
        Ok(v) => v,
        Err(h) => {
            return Err(h);
        },
    };
    let scope = Bindings { references: clone_texts(references), values: read };
    let whole = resolve_subqueries(expr, subqueries);
    eval_scalar_in(&whole, &scope, facts)
}

/// Evaluates a [`ScalarExpr`] against one row, with the row's values in the
/// order of `names`. A reference that is no column is read as a JSON access, or
/// else as a relation's row. Subqueries yield `Null`.
pub fn eval_scalar_expr(expr: &ScalarExpr, row: &Vec<Value>, names: &Vec<String>, facts: &Facts) -> (r:
    Result<Value, Halt>)
    ensures
        outcome(r) == scalar_value(*expr, texts(names@), vals(row@), facts@),
{
    let references = column_references(expr);
    match find_references(names, &references, facts) {
        Ok(at) => {
            let none: Vec<Value> = Vec::new();
            assert(vals(none@) =~= Seq::<Val>::empty());
            eval_row(expr, names, &references, &at, row, &none, facts)
        },
        Err(h) => Err(h),
    }
}

/// Evaluates an expression in each of the rows, running any subqueries in it
/// first.
pub fn eval_column(
    expr: &ScalarExpr,
    names: &Vec<String>,
    rows: &Vec<Vec<Value>>,
    facts: &Facts,
) -> (r: Result<Vec<Value>, Halt>)
    ensures
        list_outcome(r) == column_values(
            *expr,
            texts(names@),
            rows_view(rows@),
            facts@,
        ),
        r is Ok ==> r->Ok_0@.len() == rows@.len(),
{
    let mut out: Vec<Value> = Vec::new();
    assert(vals(out@) =~= Seq::<Val>::empty());
    if rows.len() == 0 {
        return Ok(out);
    }
    let references = column_references(expr);
    let at = match find_references(names, &references, facts) {
        Ok(at) => at,
        Err(h) => {
            return Err(h);
        },
    };
    let lists: Vec<Value> = if contains_subquery(expr) {
        match ask_subqueries(expr, names, rows, facts) {
            Ok(v) => v,
            Err(h) => {
                return Err(h);
            },
        }
    } else {
        let none: Vec<Value> = Vec::new();
        assert(vals(none@) =~= Seq::<Val>::empty());
        none
    };
    let ghost view = rows_view(rows@);
    let ghost given = vals(lists@);
    let mut i: usize = 0;
    while i < rows.len()
        invariant
            i <= rows@.len(),
            out@.len() == i,
            view == rows_view(rows@),
            given == vals(lists@),
            rows@.len() > 0,
            at@.len() == references@.len(),
            column_values(*expr, texts(names@), view, facts@) == row_values(
                *expr,
                texts(names@),
                opt_ints(at@),
                view,
                given,
                rows@.len(),
                facts@,
            ),
            texts(references@) == referenced(*expr),
            row_values(*expr, texts(names@), opt_ints(at@), view, given, i as nat, facts@) == Ok::<
                Seq<Val>,
                Stop,
            >(vals(out@)),
        decreases rows@.len() - i,
    {
        assert(view[i as int] == vals(rows@[i as int]@));
        let listed_here = cell_at(&lists, i);
        let none: Vec<Value> = Vec::new();
        assert(vals(none@) =~= Seq::<Val>::empty());
        let subqueries: &Vec<Value> = match &listed_here {
            Value::Array(items) => items,
            _ => &none,
        };
        match eval_row(expr, names, &references, &at, &rows[i], subqueries, facts) {
            Err(h) => {
                proof {
                    lemma_row_values_fail(
                        *expr,
                        texts(names@),
                        opt_ints(at@),
                        view,
                        given,
                        (i + 1) as nat,
                        rows@.len(),
                        facts@,
                    );
                }
                return Err(h);
            },
            Ok(v) => {
                let ghost before = out@;
                out.push(v);
                assert(vals(out@) =~= vals(before).push(v@));
            },
        }
        i = i + 1;
    }
    Ok(out)
}

// ---------------------------------------------------------------------------
// Codes
// ---------------------------------------------------------------------------

proof fn lemma_kid_codes(a: ScalarExpr, b: ScalarExpr)
    requires
        expr_code(a) == expr_code(b),
        !(a is Subquery),
    ensures
        kids(a).len() == kids(b).len(),
        forall|i: int|
            0 <= i < kids(a).len() ==> expr_code(#[trigger] kids(a)[i]) == expr_code(kids(b)[i]),
{
    law_expr_codes_tell_apart(a, b);
    match (a, b) {
        (ScalarExpr::Function { args: x, .. }, ScalarExpr::Function { args: y, .. }) => {
            law_expr_list_codes_tell_apart(x, y);
        },
        (ScalarExpr::Row(x), ScalarExpr::Row(y)) => {
            law_expr_list_codes_tell_apart(x, y);
        },
        (ScalarExpr::InList { list: x, .. }, ScalarExpr::InList { list: y, .. }) => {
            law_expr_list_codes_tell_apart(x, y);
            assert forall|i: int| 0 <= i < kids(a).len() implies expr_code(
                #[trigger] kids(a)[i],
            ) == expr_code(kids(b)[i]) by {
                if i > 0 {
                    assert(kids(a)[i] == x@[i - 1]);
                    assert(kids(b)[i] == y@[i - 1]);
                }
            }
        },
        (
            ScalarExpr::Case { operand, branches: x, else_result },
            ScalarExpr::Case { operand: other_operand, branches: y, else_result: other_result },
        ) => {
            law_branch_codes_tell_apart(x, y);
            let n = opt_kid(operand).len() as int;
            assert forall|i: int| 0 <= i < kids(a).len() implies expr_code(
                #[trigger] kids(a)[i],
            ) == expr_code(kids(b)[i]) by {
                if n <= i < n + 2 * x@.len() {
                    let j = i - n;
                    assert(kids(a)[i] == branch_kids(x@)[j]);
                    assert(kids(b)[i] == branch_kids(y@)[j]);
                    assert(expr_code(x@[j / 2].0) == expr_code(y@[j / 2].0));
                }
            }
        },
        (
            ScalarExpr::Aggregate { arg_expr, extra_args: x, filter, order_by: p, .. },
            ScalarExpr::Aggregate {
                arg_expr: other_arg,
                extra_args: y,
                filter: other_filter,
                order_by: q,
                ..
            },
        ) => {
            law_expr_list_codes_tell_apart(x, y);
            law_order_codes_tell_apart(p, q);
            let m = opt_kid(arg_expr).len() as int;
            let n = m + x@.len();
            let o = n + opt_kid(filter).len();
            assert forall|i: int| 0 <= i < kids(a).len() implies expr_code(
                #[trigger] kids(a)[i],
            ) == expr_code(kids(b)[i]) by {
                if m <= i < n {
                    assert(kids(a)[i] == x@[i - m]);
                    assert(kids(b)[i] == y@[i - m]);
                } else if i >= o {
                    assert(kids(a)[i] == p@[i - o].0);
                    assert(kids(b)[i] == q@[i - o].0);
                }
            }
        },
        _ => {},
    }
}

proof fn lemma_same_frame(a: ScalarExpr, b: ScalarExpr, ks: Seq<ExprView>)
    requires
        expr_code(a) == expr_code(b),
        !(a is Subquery),
    ensures
        rebuilt(a@, ks) == rebuilt(b@, ks),
{
    law_expr_codes_tell_apart(a, b);
    match (a, b) {
        (ScalarExpr::Case { branches: x, .. }, ScalarExpr::Case { branches: y, .. }) => {
            law_branch_codes_tell_apart(x, y);
            assert(rebuilt(a@, ks)->branches =~= rebuilt(b@, ks)->branches);
        },
        (
            ScalarExpr::Aggregate { extra_args: x, order_by: p, .. },
            ScalarExpr::Aggregate { extra_args: y, order_by: q, .. },
        ) => {
            law_expr_list_codes_tell_apart(x, y);
            law_order_codes_tell_apart(p, q);
            assert forall|i: int| 0 <= i < p@.len() implies a@->order_by[i].1 == b@->order_by[i].1
                && a@->order_by[i].2 == b@->order_by[i].2 by {
                assert(p@[i].1 == q@[i].1);
            }
            assert(rebuilt(a@, ks)->order_by =~= rebuilt(b@, ks)->order_by);
        },
        _ => {},
    }
}

/// A code tells everything of an expression: two without subqueries that have
/// the same code stand for the same expression.
pub proof fn law_a_code_stands_for_one_expression(a: ScalarExpr, b: ScalarExpr)
    requires
        expr_code(a) == expr_code(b),
        nested(a).len() == 0,
    ensures
        a@ == b@,
    decreases a,
{
    lemma_kid_codes(a, b);
    let ks = exprs(kids(a));
    assert forall|i: int| 0 <= i < kids(a).len() implies ks[i] == exprs(kids(b))[i] by {
        lemma_kids_smaller(a, i);
        lemma_nested(a, i);
        lemma_flat_part(kids_nested(a), i);
        law_a_code_stands_for_one_expression(kids(a)[i], kids(b)[i]);
    }
    assert(ks =~= exprs(kids(b)));
    law_rebuilt_with_own_kids(a);
    law_rebuilt_with_own_kids(b);
    lemma_same_frame(a, b, ks);
}

/// Whether a condition runs no subquery.
pub open spec fn runs_nothing(f: FilterExpr) -> bool
    decreases f,
{
    match f {
        FilterExpr::And(a, b) => runs_nothing(*a) && runs_nothing(*b),
        FilterExpr::Or(a, b) => runs_nothing(*a) && runs_nothing(*b),
        FilterExpr::Not(a) => runs_nothing(*a),
        FilterExpr::ExprCmp { left, right, .. } => nested(left).len() == 0 && nested(right).len()
            == 0,
        FilterExpr::Scalar(e) => nested(e).len() == 0,
        FilterExpr::InSubquery { .. } => false,
        FilterExpr::CompareSubquery { .. } => false,
        FilterExpr::Exists { .. } => false,
        FilterExpr::QuantifiedSubquery { .. } => false,
        _ => true,
    }
}

/// A code tells everything of a condition: two without subqueries that have the
/// same code stand for the same condition.
pub proof fn law_a_code_stands_for_one_condition(a: FilterExpr, b: FilterExpr)
    requires
        filter_code(a) == filter_code(b),
        runs_nothing(a),
    ensures
        filter_view(a) == filter_view(b),
    decreases a,
{
    law_filter_codes_tell_apart(a, b);
    match (a, b) {
        (FilterExpr::Predicate(p), FilterExpr::Predicate(q)) => {
            law_predicate_codes_tell_apart(p, q);
            law_operand_codes_tell_apart(p.right, q.right);
        },
        (FilterExpr::And(p, q), FilterExpr::And(r, s)) => {
            law_a_code_stands_for_one_condition(*p, *r);
            law_a_code_stands_for_one_condition(*q, *s);
        },
        (FilterExpr::Or(p, q), FilterExpr::Or(r, s)) => {
            law_a_code_stands_for_one_condition(*p, *r);
            law_a_code_stands_for_one_condition(*q, *s);
        },
        (FilterExpr::Not(p), FilterExpr::Not(q)) => {
            law_a_code_stands_for_one_condition(*p, *q);
        },
        (FilterExpr::InList { list: x, .. }, FilterExpr::InList { list: y, .. }) => {
            law_operand_list_codes_tell_apart(x, y);
            assert forall|i: int| 0 <= i < x@.len() implies operands(x@)[i] == operands(y@)[i] by {
                assert(operand_code(x@[i]) == operand_code(y@[i]));
                law_operand_codes_tell_apart(x@[i], y@[i]);
            }
            assert(operands(x@) =~= operands(y@));
        },
        (
            FilterExpr::ExprCmp { left: p, right: q, .. },
            FilterExpr::ExprCmp { left: r, right: s, .. },
        ) => {
            law_a_code_stands_for_one_expression(p, r);
            law_a_code_stands_for_one_expression(q, s);
        },
        (FilterExpr::Scalar(p), FilterExpr::Scalar(q)) => {
            law_a_code_stands_for_one_expression(p, q);
        },
        _ => {},
    }
}

} // verus!
