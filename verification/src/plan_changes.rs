//! Planning the statements that change rows: `INSERT`, `UPDATE`, and `DELETE`,
//! with their assignments and `RETURNING` lists.
use vstd::prelude::*;
use std::sync::Arc;
use crate::call_errors::{unknown_function, unknown_function_error};
use crate::eval::{bound, eval, eval_scalar_in, Bindings};
use crate::expr::{
    aggregates, exprs, first_column, first_column_reference, kids, lemma_aggregates, lemma_kids_smaller, lemma_parts,
    lemma_parts_smaller, parts, rebuilt, refs,
    scalar_has_aggregate, ExprView,
};
use crate::facts::{outcome, Facts, Halt, Known, Stop};
use crate::literals::{expr_to_value, literal};
use crate::lower::{lower_scalar, lowered};
use crate::output_names::{default_name, default_output_name};
use crate::plan_conditions::{parse_predicates, plan_outcome};
use crate::plan_query::{plan_body, plan_ctes, plan_query};
use crate::plan_types::{ConflictTarget, LogicalPlan, OnConflictClause, ReturningExpr, ScalarExpr};
use crate::plan_views::{
    assignments_view, conflict_view, flag_lists, plan_view, returning_view, scalar_if, target_view, ConflictView,
    PlanView, TargetView,
};
use crate::planner::{planned_body, planned_ctes, planned_query, planned_where};
use crate::syntax::{
    ArgKind, Arguments, Assignment, AssignmentTarget, Body, ConflictAction, ConflictSpec,
    FactorKind, FromItem, FunctionArg, Insert, InsertClause, ItemKind, ObjectName, Query,
    SelectItem, SqlExpr, SqlNode, TableFactor, With,
};
use crate::text::{
    clone_texts, concat2, concat3, lower, lower_text, same_text, split_once, split_once_text,
    texts,
};
use crate::value::{rows_view, vals, Val, Value};

verus! {

// ---------------------------------------------------------------------------
// RETURNING
// ---------------------------------------------------------------------------

/// Whether a qualifier means the row before a change.
pub open spec fn is_old(qualifier: Seq<char>) -> bool {
    lower(qualifier) == "old"@
}

fn means_old(qualifier: &str) -> (r: bool)
    ensures
        r == is_old(qualifier@),
{
    let low = lower_text(qualifier);
    same_text(low.as_str(), "old")
}

/// Whether a qualifier means the row after a change.
pub open spec fn is_new(qualifier: Seq<char>) -> bool {
    lower(qualifier) == "new"@
}

fn means_new(qualifier: &str) -> (r: bool)
    ensures
        r == is_new(qualifier@),
{
    let low = lower_text(qualifier);
    same_text(low.as_str(), "new")
}

/// An item of a `RETURNING` list that is computed from the rows before and
/// after the change; `text` is the item as written.
pub open spec fn computed_item(
    e: SqlExpr,
    name: Seq<char>,
    text: Seq<char>,
    params: Seq<Val>,
    k: Known,
) -> Result<(Seq<char>, Option<ExprView>), Stop> {
    match lowered(e, params, k) {
        Err(s) => Err(s),
        Ok(None) => match unknown_function(e, k) {
            Ok(Some(m)) => Err(Stop::Raised(m)),
            Ok(None) => Err(Stop::Raised("Unsupported RETURNING item: "@ + text)),
            Err(s) => Err(s),
        },
        Ok(Some(x)) => if aggregates(x) {
            Err(Stop::Raised("aggregate functions are not allowed in RETURNING"@))
        } else {
            Ok((name, Some(x)))
        },
    }
}

/// What an item of a `RETURNING` list returns: its output name, and nothing
/// more for a plain column (`*` stands for every column), else the expression
/// to compute. `old.c` and `new.c` are computed: they read the row before or
/// after the change, which a plain column does not tell apart.
pub open spec fn returned(item: SelectItem, params: Seq<Val>, k: Known) -> Result<
    (Seq<char>, Option<ExprView>),
    Stop,
> {
    let refused: Result<(Seq<char>, Option<ExprView>), Stop> = Err(
        Stop::Raised("Unsupported RETURNING item: "@ + item.text@),
    );
    match item.kind {
        ItemKind::Wildcard => Ok(("*"@, None)),
        ItemKind::QualifiedWildcard(Some(name)) => if is_old(name@) {
            refused
        } else {
            Ok(("*"@, None))
        },
        ItemKind::QualifiedWildcard(None) => refused,
        ItemKind::Unnamed(e) => match e.node {
            SqlNode::Identifier(id) => Ok((id.value@, None)),
            SqlNode::Compound(ids) => if ids@.len() == 2 && !is_old(ids@[0].value@) && !is_new(
                ids@[0].value@,
            ) {
                Ok((ids@[1].value@, None))
            } else {
                computed_item(e, default_name(e), item.text@, params, k)
            },
            _ => computed_item(e, default_name(e), item.text@, params, k),
        },
        ItemKind::Aliased(e, alias) => computed_item(e, alias@, item.text@, params, k),
        ItemKind::MultiAliased => refused,
    }
}

/// What the items from position `i` on return, after what those before them
/// return.
pub open spec fn returned_from(
    items: Seq<SelectItem>,
    i: nat,
    names: Seq<Seq<char>>,
    found: Seq<Option<ExprView>>,
    params: Seq<Val>,
    k: Known,
) -> Result<(Seq<Seq<char>>, Seq<Option<ExprView>>), Stop>
    decreases items.len() - i,
{
    if i >= items.len() {
        Ok((names, found))
    } else {
        match returned(items[i as int], params, k) {
            Ok((name, x)) => returned_from(
                items,
                i + 1,
                names.push(name),
                found.push(x),
                params,
                k,
            ),
            Err(s) => Err(s),
        }
    }
}

/// What a `RETURNING` list returns: of each item its output name and, unless
/// it is a plain column, its expression.
pub open spec fn returning(items: Option<Vec<SelectItem>>, params: Seq<Val>, k: Known) -> Result<
    (Seq<Seq<char>>, Seq<Option<ExprView>>),
    Stop,
> {
    match items {
        Some(items) => returned_from(items@, 0, Seq::empty(), Seq::empty(), params, k),
        None => Ok((Seq::empty(), Seq::empty())),
    }
}

/// Whether every item is a plain column.
pub open spec fn only_columns(found: Seq<Option<ExprView>>) -> bool {
    forall|i: int| 0 <= i < found.len() ==> (#[trigger] found[i]) is None
}

/// The expressions that a plan keeps: none where every item is a plain column.
pub open spec fn kept_exprs(found: Seq<Option<ExprView>>) -> Seq<Option<ExprView>> {
    if only_columns(found) {
        Seq::empty()
    } else {
        found
    }
}

/// What a planned `RETURNING` list stands for.
pub open spec fn returning_outcome(
    r: Result<(Vec<String>, Vec<Option<ReturningExpr>>), Halt>,
) -> Result<(Seq<Seq<char>>, Seq<Option<ExprView>>), Stop> {
    match r {
        Ok((names, found)) => Ok((texts(names@), returning_view(found@))),
        Err(h) => Err(h@),
    }
}

/// What a planned item stands for.
pub open spec fn returned_outcome(r: Result<(String, Option<ReturningExpr>), Halt>) -> Result<
    (Seq<char>, Option<ExprView>),
    Stop,
> {
    match r {
        Ok((name, Some(x))) => Ok((name@, Some(x.expr@))),
        Ok((name, None)) => Ok((name@, None)),
        Err(h) => Err(h@),
    }
}

fn plan_computed(
    e: &SqlExpr,
    name: String,
    text: &str,
    params: &Vec<Value>,
    facts: &Facts,
) -> (r: Result<(String, Option<ReturningExpr>), Halt>)
    ensures
        returned_outcome(r) == computed_item(*e, name@, text@, vals(params@), facts@),
{
    match lower_scalar(e, params, facts) {
        Err(h) => Err(h),
        Ok(None) => match unknown_function_error(e, facts) {
            Ok(Some(m)) => Err(Halt::Raised(m)),
            Ok(None) => Err(Halt::Raised(concat2("Unsupported RETURNING item: ", text))),
            Err(h) => Err(h),
        },
        Ok(Some(expr)) => {
            if scalar_has_aggregate(&expr) {
                proof {
                    lemma_aggregates(expr);
                }
                return Err(
                    Halt::Raised("aggregate functions are not allowed in RETURNING".to_owned()),
                );
            }
            proof {
                lemma_aggregates(expr);
            }
            Ok((name, Some(ReturningExpr { expr })))
        },
    }
}

fn refuse_returning(item: &SelectItem) -> (r: Result<(String, Option<ReturningExpr>), Halt>)
    ensures
        r is Err,
        r->Err_0@ == Stop::Raised("Unsupported RETURNING item: "@ + item.text@),
{
    Err(Halt::Raised(concat2("Unsupported RETURNING item: ", item.text.as_str())))
}

fn plan_returned(item: &SelectItem, params: &Vec<Value>, facts: &Facts) -> (r: Result<
    (String, Option<ReturningExpr>),
    Halt,
>)
    ensures
        returned_outcome(r) == returned(*item, vals(params@), facts@),
{
    match &item.kind {
        ItemKind::Wildcard => Ok(("*".to_owned(), None)),
        ItemKind::QualifiedWildcard(Some(name)) => {
            if means_old(name.as_str()) {
                refuse_returning(item)
            } else {
                Ok(("*".to_owned(), None))
            }
        },
        ItemKind::QualifiedWildcard(None) => refuse_returning(item),
        ItemKind::Unnamed(e) => match &e.node {
            SqlNode::Identifier(id) => Ok((id.value.clone(), None)),
            SqlNode::Compound(ids) => {
                if ids.len() == 2 && !means_old(ids[0].value.as_str()) && !means_new(
                    ids[0].value.as_str(),
                ) {
                    Ok((ids[1].value.clone(), None))
                } else {
                    plan_computed(e, default_output_name(e), item.text.as_str(), params, facts)
                }
            },
            _ => plan_computed(e, default_output_name(e), item.text.as_str(), params, facts),
        },
        ItemKind::Aliased(e, alias) => plan_computed(
            e,
            alias.clone(),
            item.text.as_str(),
            params,
            facts,
        ),
        ItemKind::MultiAliased => refuse_returning(item),
    }
}

/// Plans a `RETURNING` list: of each item its output name and, unless it is a
/// plain column, its expression over the rows before and after the change.
/// `*` (and `new.*`) expands to every column at execution.
pub fn plan_returning(
    items: &Option<Vec<SelectItem>>,
    params: &Vec<Value>,
    facts: &Facts,
) -> (r: Result<(Vec<String>, Vec<Option<ReturningExpr>>), Halt>)
    ensures
        returning_outcome(r) == returning(*items, vals(params@), facts@),
{
    let mut names: Vec<String> = Vec::new();
    let mut found: Vec<Option<ReturningExpr>> = Vec::new();
    assert(texts(names@) =~= Seq::<Seq<char>>::empty());
    assert(returning_view(found@) =~= Seq::<Option<ExprView>>::empty());
    if let Some(list) = items {
        let mut i: usize = 0;
        while i < list.len()
            invariant
                i <= list@.len(),
                returning(*items, vals(params@), facts@) == returned_from(
                    list@,
                    i as nat,
                    texts(names@),
                    returning_view(found@),
                    vals(params@),
                    facts@,
                ),
            decreases list@.len() - i,
        {
            match plan_returned(&list[i], params, facts) {
                Ok((name, x)) => {
                    let ghost names_before = names@;
                    let ghost found_before = found@;
                    let ghost shown = returned_outcome(Ok((name, x)))->Ok_0;
                    names.push(name);
                    found.push(x);
                    assert(texts(names@) =~= texts(names_before).push(shown.0));
                    assert(returning_view(found@) =~= returning_view(found_before).push(shown.1));
                },
                Err(h) => {
                    return Err(h);
                },
            }
            i = i + 1;
        }
    }
    Ok((names, found))
}

pub fn keep_exprs(found: Vec<Option<ReturningExpr>>) -> (r: Vec<Option<ReturningExpr>>)
    ensures
        returning_view(r@) == kept_exprs(returning_view(found@)),
{
    let mut i: usize = 0;
    while i < found.len()
        invariant
            i <= found@.len(),
            forall|j: int| 0 <= j < i ==> (#[trigger] returning_view(found@)[j]) is None,
        decreases found@.len() - i,
    {
        if let Some(_) = &found[i] {
            assert(returning_view(found@)[i as int] is Some);
            return found;
        }
        i = i + 1;
    }
    let none: Vec<Option<ReturningExpr>> = Vec::new();
    assert(returning_view(none@) =~= Seq::<Option<ExprView>>::empty());
    none
}

// ---------------------------------------------------------------------------
// Assignments
// ---------------------------------------------------------------------------

/// Whether an expression is the keyword `DEFAULT`, which parses as an unquoted
/// name.
pub open spec fn is_default(e: SqlExpr) -> bool {
    match e.node {
        SqlNode::Identifier(id) => !id.quoted && lower(id.value@) == "default"@,
        _ => false,
    }
}

pub fn is_default_keyword(e: &SqlExpr) -> (r: bool)
    ensures
        r == is_default(*e),
{
    match &e.node {
        SqlNode::Identifier(id) => {
            let low = lower_text(id.value.as_str());
            !id.quoted && same_text(low.as_str(), "default")
        },
        _ => false,
    }
}

/// The value that an assignment gives; `DEFAULT` stands for the column's
/// default when the statement runs.
pub open spec fn assigned_value(e: SqlExpr, params: Seq<Val>, k: Known) -> Result<ExprView, Stop> {
    if is_default(e) {
        Ok(ExprView::Function("__COLUMN_DEFAULT__"@, Seq::empty()))
    } else {
        match lowered(e, params, k) {
            Ok(Some(x)) => Ok(x),
            Ok(None) => Err(Stop::Raised("Unsupported assignment value: "@ + e.text@)),
            Err(s) => Err(s),
        }
    }
}

/// What an expression result stands for.
pub open spec fn scalar_outcome(r: Result<ScalarExpr, Halt>) -> Result<ExprView, Stop> {
    match r {
        Ok(e) => Ok(e@),
        Err(h) => Err(h@),
    }
}

/// One assignment value; `DEFAULT` becomes a call that the executor resolves to
/// the column default.
pub fn assignment_value(e: &SqlExpr, params: &Vec<Value>, facts: &Facts) -> (r: Result<
    ScalarExpr,
    Halt,
>)
    ensures
        scalar_outcome(r) == assigned_value(*e, vals(params@), facts@),
{
    broadcast use crate::expr::group_expr_views;

    if is_default_keyword(e) {
        let args: Vec<ScalarExpr> = Vec::new();
        assert(exprs(args@) =~= Seq::<ExprView>::empty());
        return Ok(ScalarExpr::Function { name: "__COLUMN_DEFAULT__".to_owned(), args });
    }
    match lower_scalar(e, params, facts) {
        Ok(Some(x)) => Ok(x),
        Ok(None) => Err(
            Halt::Raised(concat2("Unsupported assignment value: ", e.text.as_str())),
        ),
        Err(h) => Err(h),
    }
}

/// The column that a target names: the last part of its name.
pub open spec fn target_column(name: ObjectName) -> Result<Seq<char>, Stop> {
    match name.last_part {
        Some(c) => Ok(c@),
        None => Err(Stop::Raised("Unsupported assignment target: "@ + name.text@)),
    }
}

/// One assignment.
pub open spec fn assigned(name: ObjectName, e: SqlExpr, params: Seq<Val>, k: Known) -> Result<
    (Seq<char>, ExprView),
    Stop,
> {
    match target_column(name) {
        Ok(c) => match assigned_value(e, params, k) {
            Ok(x) => Ok((c, x)),
            Err(s) => Err(s),
        },
        Err(s) => Err(s),
    }
}

fn assign(name: &ObjectName, e: &SqlExpr, params: &Vec<Value>, facts: &Facts) -> (r: Result<
    (String, ScalarExpr),
    Halt,
>)
    ensures
        match r {
            Ok(p) => Ok((p.0@, p.1@)),
            Err(h) => Err(h@),
        } == assigned(*name, *e, vals(params@), facts@),
{
    match &name.last_part {
        Some(c) => match assignment_value(e, params, facts) {
            Ok(x) => Ok((c.clone(), x)),
            Err(h) => Err(h),
        },
        None => Err(
            Halt::Raised(concat2("Unsupported assignment target: ", name.text.as_str())),
        ),
    }
}

/// The expressions of a `ROW` call from position `i` on, after those of
/// `before`.
pub open spec fn row_args(args: Seq<FunctionArg>, i: nat, before: Seq<SqlExpr>) -> Result<
    Seq<SqlExpr>,
    Stop,
>
    decreases args.len() - i,
{
    if i >= args.len() {
        Ok(before)
    } else {
        match args[i as int].kind {
            ArgKind::Expr(e) => row_args(args, i + 1, before.push(e)),
            _ => Err(Stop::Raised("Unsupported ROW argument: "@ + args[i as int].text@)),
        }
    }
}

/// The expressions that are assigned to a list of columns.
pub open spec fn row_values(e: SqlExpr) -> Result<Seq<SqlExpr>, Stop> {
    let refused: Result<Seq<SqlExpr>, Stop> = Err(
        Stop::Raised("Unsupported multi-column assignment source: "@ + e.text@),
    );
    match e.node {
        SqlNode::Tuple(items) => Ok(items@),
        SqlNode::Function(call) => if lower(call.name@) == "row"@ {
            match call.args {
                Arguments::List { args, .. } => row_args(args@, 0, Seq::empty()),
                _ => Ok(Seq::empty()),
            }
        } else {
            refused
        },
        _ => refused,
    }
}

/// What borrowed expressions are.
pub open spec fn pointed(s: Seq<&SqlExpr>) -> Seq<SqlExpr> {
    Seq::new(s.len(), |i: int| *s[i])
}

/// What a result of borrowed expressions stands for.
pub open spec fn pointed_outcome(r: Result<Vec<&SqlExpr>, Halt>) -> Result<Seq<SqlExpr>, Stop> {
    match r {
        Ok(v) => Ok(pointed(v@)),
        Err(h) => Err(h@),
    }
}

fn list_row_args(args: &Vec<FunctionArg>) -> (r: Result<Vec<&SqlExpr>, Halt>)
    ensures
        pointed_outcome(r) == row_args(args@, 0, Seq::empty()),
{
    let mut out: Vec<&SqlExpr> = Vec::new();
    let mut i: usize = 0;
    assert(pointed(out@) =~= Seq::<SqlExpr>::empty());
    while i < args.len()
        invariant
            i <= args@.len(),
            row_args(args@, 0, Seq::empty()) == row_args(args@, i as nat, pointed(out@)),
        decreases args@.len() - i,
    {
        match &args[i].kind {
            ArgKind::Expr(e) => {
                let ghost before = out@;
                out.push(e);
                assert(pointed(out@) =~= pointed(before).push(*e));
            },
            _ => {
                return Err(
                    Halt::Raised(concat2("Unsupported ROW argument: ", args[i].text.as_str())),
                );
            },
        }
        i = i + 1;
    }
    Ok(out)
}

fn list_items(items: &Vec<SqlExpr>) -> (r: Vec<&SqlExpr>)
    ensures
        pointed(r@) == items@,
{
    let mut out: Vec<&SqlExpr> = Vec::new();
    let mut i: usize = 0;
    while i < items.len()
        invariant
            i <= items@.len(),
            out@.len() == i,
            forall|j: int| 0 <= j < i ==> *(#[trigger] out@[j]) == items@[j],
        decreases items@.len() - i,
    {
        out.push(&items[i]);
        i = i + 1;
    }
    assert(pointed(out@) =~= items@);
    out
}

fn refuse_source(e: &SqlExpr) -> (r: Halt)
    ensures
        r@ == Stop::Raised("Unsupported multi-column assignment source: "@ + e.text@),
{
    Halt::Raised(concat2("Unsupported multi-column assignment source: ", e.text.as_str()))
}

fn list_row_values(e: &SqlExpr) -> (r: Result<Vec<&SqlExpr>, Halt>)
    ensures
        pointed_outcome(r) == row_values(*e),
{
    match &e.node {
        SqlNode::Tuple(items) => Ok(list_items(items)),
        SqlNode::Function(call) => {
            let low = lower_text(call.name.as_str());
            if same_text(low.as_str(), "row") {
                match &call.args {
                    Arguments::List { args, .. } => list_row_args(args),
                    _ => {
                        let none: Vec<&SqlExpr> = Vec::new();
                        assert(pointed(none@) =~= Seq::<SqlExpr>::empty());
                        Ok(none)
                    },
                }
            } else {
                Err(refuse_source(e))
            }
        },
        _ => Err(refuse_source(e)),
    }
}

/// The assignments of expressions to columns, in pairs from position `i` on,
/// after those of `before`.
pub open spec fn assigned_pairs(
    names: Seq<ObjectName>,
    es: Seq<SqlExpr>,
    i: nat,
    before: Seq<(Seq<char>, ExprView)>,
    params: Seq<Val>,
    k: Known,
) -> Result<Seq<(Seq<char>, ExprView)>, Stop>
    decreases names.len() - i,
{
    if i >= names.len() {
        Ok(before)
    } else {
        match assigned(names[i as int], es[i as int], params, k) {
            Ok(p) => assigned_pairs(names, es, i + 1, before.push(p), params, k),
            Err(s) => Err(s),
        }
    }
}

/// What one assignment adds to those of `before`: a list of columns takes a
/// list of as many values.
pub open spec fn assigned_next(
    a: Assignment,
    before: Seq<(Seq<char>, ExprView)>,
    params: Seq<Val>,
    k: Known,
) -> Result<Seq<(Seq<char>, ExprView)>, Stop> {
    match a.target {
        AssignmentTarget::Column(name) => match assigned(name, a.value, params, k) {
            Ok(p) => Ok(before.push(p)),
            Err(s) => Err(s),
        },
        AssignmentTarget::Tuple(names) => match row_values(a.value) {
            Ok(es) => if es.len() != names@.len() {
                Err(Stop::Raised("number of columns does not match number of values"@))
            } else {
                assigned_pairs(names@, es, 0, before, params, k)
            },
            Err(s) => Err(s),
        },
    }
}

/// What the assignments from position `i` on assign, after those of `before`.
pub open spec fn assignments_from(
    list: Seq<Assignment>,
    i: nat,
    before: Seq<(Seq<char>, ExprView)>,
    params: Seq<Val>,
    k: Known,
) -> Result<Seq<(Seq<char>, ExprView)>, Stop>
    decreases list.len() - i,
{
    if i >= list.len() {
        Ok(before)
    } else {
        match assigned_next(list[i as int], before, params, k) {
            Ok(next) => assignments_from(list, i + 1, next, params, k),
            Err(s) => Err(s),
        }
    }
}

/// What an assignment result stands for.
pub open spec fn assignments_outcome(r: Result<Vec<(String, ScalarExpr)>, Halt>) -> Result<
    Seq<(Seq<char>, ExprView)>,
    Stop,
> {
    match r {
        Ok(v) => Ok(assignments_view(v@)),
        Err(h) => Err(h@),
    }
}

fn assign_pairs(
    names: &Vec<ObjectName>,
    es: &Vec<&SqlExpr>,
    before: Vec<(String, ScalarExpr)>,
    params: &Vec<Value>,
    facts: &Facts,
) -> (r: Result<Vec<(String, ScalarExpr)>, Halt>)
    requires
        names@.len() == es@.len(),
    ensures
        assignments_outcome(r) == assigned_pairs(
            names@,
            pointed(es@),
            0,
            assignments_view(before@),
            vals(params@),
            facts@,
        ),
{
    let ghost start = assignments_view(before@);
    let mut out = before;
    let mut i: usize = 0;
    while i < names.len()
        invariant
            i <= names@.len(),
            names@.len() == es@.len(),
            start == assignments_view(before@),
            assigned_pairs(names@, pointed(es@), 0, start, vals(params@), facts@) == assigned_pairs(
                names@,
                pointed(es@),
                i as nat,
                assignments_view(out@),
                vals(params@),
                facts@,
            ),
        decreases names@.len() - i,
    {
        assert(pointed(es@)[i as int] == *es@[i as int]);
        match assign(&names[i], es[i], params, facts) {
            Ok(p) => {
                let ghost earlier = out@;
                out.push(p);
                assert(assignments_view(out@) =~= assignments_view(earlier).push((p.0@, p.1@)));
            },
            Err(h) => {
                return Err(h);
            },
        }
        i = i + 1;
    }
    Ok(out)
}

fn assign_next(
    a: &Assignment,
    before: Vec<(String, ScalarExpr)>,
    params: &Vec<Value>,
    facts: &Facts,
) -> (r: Result<Vec<(String, ScalarExpr)>, Halt>)
    ensures
        assignments_outcome(r) == assigned_next(
            *a,
            assignments_view(before@),
            vals(params@),
            facts@,
        ),
{
    match &a.target {
        AssignmentTarget::Column(name) => match assign(name, &a.value, params, facts) {
            Ok(p) => {
                let ghost earlier = before@;
                let mut out = before;
                out.push(p);
                assert(assignments_view(out@) =~= assignments_view(earlier).push((p.0@, p.1@)));
                Ok(out)
            },
            Err(h) => Err(h),
        },
        AssignmentTarget::Tuple(names) => match list_row_values(&a.value) {
            Ok(es) => {
                assert(pointed(es@).len() == es@.len());
                if es.len() != names.len() {
                    Err(
                        Halt::Raised(
                            "number of columns does not match number of values".to_owned(),
                        ),
                    )
                } else {
                    assign_pairs(names, &es, before, params, facts)
                }
            },
            Err(h) => Err(h),
        },
    }
}

/// Plans `SET` assignments. A tuple target `(a, b) = (x, y)` expands to one
/// assignment per column. An assignment that cannot be evaluated is an error
/// rather than silently dropped.
pub fn plan_assignments(list: &Vec<Assignment>, params: &Vec<Value>, facts: &Facts) -> (r: Result<
    Vec<(String, ScalarExpr)>,
    Halt,
>)
    ensures
        assignments_outcome(r) == assignments_from(
            list@,
            0,
            Seq::empty(),
            vals(params@),
            facts@,
        ),
{
    let mut out: Vec<(String, ScalarExpr)> = Vec::new();
    let mut i: usize = 0;
    assert(assignments_view(out@) =~= Seq::<(Seq<char>, ExprView)>::empty());
    while i < list.len()
        invariant
            i <= list@.len(),
            assignments_from(list@, 0, Seq::empty(), vals(params@), facts@) == assignments_from(
                list@,
                i as nat,
                assignments_view(out@),
                vals(params@),
                facts@,
            ),
        decreases list@.len() - i,
    {
        match assign_next(&list[i], out, params, facts) {
            Ok(next) => {
                out = next;
            },
            Err(h) => {
                return Err(h);
            },
        }
        i = i + 1;
    }
    Ok(out)
}

// ---------------------------------------------------------------------------
// References to the proposed row
// ---------------------------------------------------------------------------

/// A column reference with `EXCLUDED`, in any case, as its qualifier refers to
/// the proposed row, under the qualifier `excluded`.
pub open spec fn excluded_name(name: Seq<char>) -> Seq<char> {
    match split_once(name, '.') {
        Some((qualifier, column)) => if lower(qualifier) == "excluded"@ {
            "excluded."@ + column
        } else {
            name
        },
        None => name,
    }
}

/// An expression with its references to the proposed row bound.
pub open spec fn excluded(e: ExprView) -> ExprView
    decreases e, parts(e).len() + 1,
{
    match e {
        ExprView::Column(name) => ExprView::Column(excluded_name(name)),
        _ => rebuilt(e, excluded_first(e, parts(e).len())),
    }
}

/// The first `n` sub-expressions with their references to the proposed row
/// bound.
pub open spec fn excluded_first(e: ExprView, n: nat) -> Seq<ExprView>
    decreases e, n,
{
    if n == 0 || n > parts(e).len() {
        Seq::empty()
    } else {
        proof {
            lemma_parts_smaller(e, n - 1);
        }
        excluded_first(e, (n - 1) as nat).push(excluded(parts(e)[n - 1]))
    }
}

fn bind_name(name: &String) -> (r: String)
    ensures
        r@ == excluded_name(name@),
{
    match split_once_text(name.as_str(), '.') {
        Some((qualifier, column)) => {
            let low = lower_text(qualifier.as_str());
            if same_text(low.as_str(), "excluded") {
                concat2("excluded.", column.as_str())
            } else {
                name.clone()
            }
        },
        None => name.clone(),
    }
}

/// Resolves `EXCLUDED.<col>` (any case) to the `excluded.<col>` name under
/// which the proposed row is bound during `ON CONFLICT DO UPDATE`.
pub fn bind_excluded(expr: &ScalarExpr) -> (r: ScalarExpr)
    ensures
        r@ == excluded(expr@),
    decreases expr,
{
    if let ScalarExpr::Column(name) = expr {
        return ScalarExpr::Column(bind_name(name));
    }
    let children = expr.children();
    let mut ks: Vec<ScalarExpr> = Vec::new();
    let mut i: usize = 0;
    proof {
        lemma_parts(*expr);
        assert(exprs(kids(*expr)).len() == kids(*expr).len());
    }
    assert(exprs(ks@) =~= Seq::<ExprView>::empty());
    while i < children.len()
        invariant
            children@ == refs(kids(*expr)),
            exprs(kids(*expr)) == parts(expr@),
            parts(expr@).len() == kids(*expr).len(),
            i == ks@.len(),
            i <= children@.len(),
            exprs(ks@) == excluded_first(expr@, i as nat),
        decreases children@.len() - i,
    {
        proof {
            lemma_kids_smaller(*expr, i as int);
            assert(exprs(kids(*expr))[i as int] == kids(*expr)[i as int]@);
        }
        let x = bind_excluded(children[i]);
        let ghost before = ks@;
        ks.push(x);
        assert(exprs(ks@) =~= exprs(before).push(x@));
        i = i + 1;
    }
    expr.with_children(ks)
}

/// What assignments become with their references to the proposed row bound.
pub open spec fn excluded_all(s: Seq<(Seq<char>, ExprView)>) -> Seq<(Seq<char>, ExprView)> {
    Seq::new(s.len(), |i: int| (s[i].0, excluded(s[i].1)))
}

fn bind_all(list: &Vec<(String, ScalarExpr)>) -> (r: Vec<(String, ScalarExpr)>)
    ensures
        assignments_view(r@) == excluded_all(assignments_view(list@)),
{
    let mut out: Vec<(String, ScalarExpr)> = Vec::new();
    let mut i: usize = 0;
    while i < list.len()
        invariant
            i <= list@.len(),
            out@.len() == i,
            forall|j: int|
                0 <= j < i ==> (#[trigger] out@[j]).0@ == list@[j].0@ && out@[j].1@ == excluded(
                    list@[j].1@,
                ),
        decreases list@.len() - i,
    {
        out.push((list[i].0.clone(), bind_excluded(&list[i].1)));
        i = i + 1;
    }
    assert(assignments_view(out@) =~= excluded_all(assignments_view(list@)));
    out
}

// ---------------------------------------------------------------------------
// VALUES
// ---------------------------------------------------------------------------

/// The value of a `VALUES` cell: a constant, or what a constant expression
/// evaluates to.
pub open spec fn cell_value(e: SqlExpr, params: Seq<Val>, k: Known) -> Result<Val, Stop> {
    match e.node {
        SqlNode::Identifier(_) | SqlNode::Compound(_) => computed_cell(e, params, k),
        _ => match literal(e, params, k) {
            Ok(Some(v)) => Ok(v),
            Ok(None) => computed_cell(e, params, k),
            Err(s) => Err(s),
        },
    }
}

/// The value of an expression that names no column.
pub open spec fn computed_cell(e: SqlExpr, params: Seq<Val>, k: Known) -> Result<Val, Stop> {
    match lowered(e, params, k) {
        Ok(Some(x)) => match first_column(x) {
            Some(_) => Err(Stop::Raised("column \""@ + e.text@ + "\" does not exist"@)),
            None => eval(x, bound(Seq::empty(), Seq::empty()), k),
        },
        Ok(None) => Err(Stop::Raised("Unsupported VALUES expression: "@ + e.text@)),
        Err(s) => Err(s),
    }
}

fn compute_cell(e: &SqlExpr, params: &Vec<Value>, facts: &Facts) -> (r: Result<Value, Halt>)
    ensures
        outcome(r) == computed_cell(*e, vals(params@), facts@),
{
    match lower_scalar(e, params, facts) {
        Ok(Some(x)) => match first_column_reference(&x) {
            Some(_) => Err(
                Halt::Raised(concat3("column \"", e.text.as_str(), "\" does not exist")),
            ),
            None => {
                let scope = Bindings { references: Vec::new(), values: Vec::new() };
                assert(texts(scope.references@) =~= Seq::<Seq<char>>::empty());
                assert(vals(scope.values@) =~= Seq::<Val>::empty());
                eval_scalar_in(&x, &scope, facts)
            },
        },
        Ok(None) => Err(
            Halt::Raised(concat2("Unsupported VALUES expression: ", e.text.as_str())),
        ),
        Err(h) => Err(h),
    }
}

/// Evaluates one `VALUES` cell: a literal or parameter, or else a constant
/// scalar expression (`1 + 1`, `'a' || 'b'`). A cell that cannot be evaluated,
/// or that names a column, is an error rather than NULL.
pub fn values_cell(e: &SqlExpr, params: &Vec<Value>, facts: &Facts) -> (r: Result<Value, Halt>)
    ensures
        outcome(r) == cell_value(*e, vals(params@), facts@),
{
    match &e.node {
        SqlNode::Identifier(_) | SqlNode::Compound(_) => compute_cell(e, params, facts),
        _ => match expr_to_value(e, params, facts) {
            Ok(Some(v)) => Ok(v),
            Ok(None) => compute_cell(e, params, facts),
            Err(h) => Err(h),
        },
    }
}

/// The values of a row's cells from position `i` on, after those of `values`,
/// with a mark for each cell that is the keyword `DEFAULT`.
pub open spec fn row_cells(
    cells: Seq<SqlExpr>,
    i: nat,
    values: Seq<Val>,
    marks: Seq<bool>,
    params: Seq<Val>,
    k: Known,
) -> Result<(Seq<Val>, Seq<bool>), Stop>
    decreases cells.len() - i,
{
    if i >= cells.len() {
        Ok((values, marks))
    } else if is_default(cells[i as int]) {
        row_cells(cells, i + 1, values.push(Val::Null), marks.push(true), params, k)
    } else {
        match cell_value(cells[i as int], params, k) {
            Ok(v) => row_cells(cells, i + 1, values.push(v), marks.push(false), params, k),
            Err(s) => Err(s),
        }
    }
}

fn plan_row(cells: &Vec<SqlExpr>, params: &Vec<Value>, facts: &Facts) -> (r: Result<
    (Vec<Value>, Vec<bool>),
    Halt,
>)
    ensures
        match r {
            Ok((v, m)) => Ok((vals(v@), m@)),
            Err(h) => Err(h@),
        } == row_cells(cells@, 0, Seq::empty(), Seq::empty(), vals(params@), facts@),
{
    let mut values: Vec<Value> = Vec::new();
    let mut marks: Vec<bool> = Vec::new();
    let mut i: usize = 0;
    assert(vals(values@) =~= Seq::<Val>::empty());
    assert(marks@ =~= Seq::<bool>::empty());
    while i < cells.len()
        invariant
            i <= cells@.len(),
            row_cells(cells@, 0, Seq::empty(), Seq::empty(), vals(params@), facts@) == row_cells(
                cells@,
                i as nat,
                vals(values@),
                marks@,
                vals(params@),
                facts@,
            ),
        decreases cells@.len() - i,
    {
        let ghost before = values@;
        if is_default_keyword(&cells[i]) {
            values.push(Value::Null);
            marks.push(true);
            assert(vals(values@) =~= vals(before).push(Val::Null));
        } else {
            match values_cell(&cells[i], params, facts) {
                Ok(v) => {
                    values.push(v);
                    marks.push(false);
                    assert(vals(values@) =~= vals(before).push(v@));
                },
                Err(h) => {
                    return Err(h);
                },
            }
        }
        i = i + 1;
    }
    Ok((values, marks))
}

/// The rows from position `i` on, after those of `rows`, with their marks.
pub open spec fn value_rows(
    lists: Seq<Vec<SqlExpr>>,
    i: nat,
    rows: Seq<Seq<Val>>,
    marks: Seq<Seq<bool>>,
    params: Seq<Val>,
    k: Known,
) -> Result<(Seq<Seq<Val>>, Seq<Seq<bool>>), Stop>
    decreases lists.len() - i,
{
    if i >= lists.len() {
        Ok((rows, marks))
    } else {
        match row_cells(lists[i as int]@, 0, Seq::empty(), Seq::empty(), params, k) {
            Ok((r, m)) => value_rows(lists, i + 1, rows.push(r), marks.push(m), params, k),
            Err(s) => Err(s),
        }
    }
}

/// Whether any cell is marked.
pub open spec fn any_mark(marks: Seq<Seq<bool>>) -> bool {
    exists|i: int, j: int| 0 <= i < marks.len() && 0 <= j < marks[i].len() && #[trigger] marks[i][j]
}

fn has_mark(marks: &Vec<Vec<bool>>) -> (r: bool)
    ensures
        r == any_mark(flag_lists(marks@)),
{
    let ghost all = flag_lists(marks@);
    let mut i: usize = 0;
    while i < marks.len()
        invariant
            i <= marks@.len(),
            all == flag_lists(marks@),
            forall|a: int, b: int|
                0 <= a < i && 0 <= b < all[a].len() ==> !(#[trigger] all[a][b]),
        decreases marks@.len() - i,
    {
        let row = &marks[i];
        let mut j: usize = 0;
        while j < row.len()
            invariant
                i < marks@.len(),
                j <= row@.len(),
                all == flag_lists(marks@),
                *row == marks@[i as int],
                forall|b: int| 0 <= b < j ==> !(#[trigger] all[i as int][b]),
            decreases row@.len() - j,
        {
            assert(all[i as int][j as int] == row@[j as int]);
            if row[j] {
                return true;
            }
            j = j + 1;
        }
        i = i + 1;
    }
    false
}

/// The rows that `VALUES` lists, with marks for the cells that are the keyword
/// `DEFAULT`; no marks at all where no cell is.
pub open spec fn value_list(lists: Seq<Vec<SqlExpr>>, params: Seq<Val>, k: Known) -> Result<
    (Seq<Seq<Val>>, Seq<Seq<bool>>),
    Stop,
> {
    match value_rows(lists, 0, Seq::empty(), Seq::empty(), params, k) {
        Ok((rows, marks)) => Ok(
            (
                rows,
                if any_mark(marks) {
                    marks
                } else {
                    Seq::empty()
                },
            ),
        ),
        Err(s) => Err(s),
    }
}

fn plan_value_list(lists: &Vec<Vec<SqlExpr>>, params: &Vec<Value>, facts: &Facts) -> (r: Result<
    (Vec<Vec<Value>>, Vec<Vec<bool>>),
    Halt,
>)
    ensures
        match r {
            Ok((v, m)) => Ok((rows_view(v@), flag_lists(m@))),
            Err(h) => Err(h@),
        } == value_list(lists@, vals(params@), facts@),
{
    let mut rows: Vec<Vec<Value>> = Vec::new();
    let mut marks: Vec<Vec<bool>> = Vec::new();
    let mut i: usize = 0;
    assert(rows_view(rows@) =~= Seq::<Seq<Val>>::empty());
    assert(flag_lists(marks@) =~= Seq::<Seq<bool>>::empty());
    while i < lists.len()
        invariant
            i <= lists@.len(),
            value_rows(lists@, 0, Seq::empty(), Seq::empty(), vals(params@), facts@) == value_rows(
                lists@,
                i as nat,
                rows_view(rows@),
                flag_lists(marks@),
                vals(params@),
                facts@,
            ),
        decreases lists@.len() - i,
    {
        match plan_row(&lists[i], params, facts) {
            Ok((row, mark)) => {
                let ghost before = rows@;
                let ghost earlier = marks@;
                rows.push(row);
                marks.push(mark);
                assert(rows_view(rows@) =~= rows_view(before).push(vals(row@)));
                assert(flag_lists(marks@) =~= flag_lists(earlier).push(mark@));
            },
            Err(h) => {
                return Err(h);
            },
        }
        i = i + 1;
    }
    if has_mark(&marks) {
        Ok((rows, marks))
    } else {
        let none: Vec<Vec<bool>> = Vec::new();
        assert(flag_lists(none@) =~= Seq::<Seq<bool>>::empty());
        Ok((rows, none))
    }
}

// ---------------------------------------------------------------------------
// INSERT
// ---------------------------------------------------------------------------

/// The last part of a name where it is an identifier, else the whole name.
pub open spec fn bare_name(name: ObjectName) -> Seq<char> {
    match name.last_part {
        Some(c) => c@,
        None => name.text@,
    }
}

/// The columns that an `INSERT` lists, by their bare names.
pub open spec fn bare_names(names: Seq<ObjectName>) -> Seq<Seq<char>> {
    Seq::new(names.len(), |i: int| bare_name(names[i]))
}

fn name_bare(name: &ObjectName) -> (r: String)
    ensures
        r@ == bare_name(*name),
{
    match &name.last_part {
        Some(c) => c.clone(),
        None => name.text.clone(),
    }
}

pub fn names_bare(names: &Vec<ObjectName>) -> (r: Vec<String>)
    ensures
        texts(r@) == bare_names(names@),
{
    let mut out: Vec<String> = Vec::new();
    let mut i: usize = 0;
    while i < names.len()
        invariant
            i <= names@.len(),
            out@.len() == i,
            forall|j: int| 0 <= j < i ==> (#[trigger] out@[j])@ == bare_name(names@[j]),
        decreases names@.len() - i,
    {
        out.push(name_bare(&names[i]));
        i = i + 1;
    }
    assert(texts(out@) =~= bare_names(names@));
    out
}

/// The key that `ON CONFLICT` arbitrates on.
pub open spec fn conflict_key(t: Option<ConflictSpec>) -> Option<TargetView> {
    match t {
        Some(ConflictSpec::Columns(c)) => Some(TargetView::Columns(texts(c@))),
        Some(ConflictSpec::Constraint(name)) => Some(TargetView::Constraint(bare_name(name))),
        None => None,
    }
}

fn plan_conflict_key(t: &Option<ConflictSpec>) -> (r: Option<ConflictTarget>)
    ensures
        target_view(r) == conflict_key(*t),
{
    match t {
        Some(ConflictSpec::Columns(c)) => Some(ConflictTarget::Columns(clone_texts(c))),
        Some(ConflictSpec::Constraint(name)) => Some(ConflictTarget::Constraint(name_bare(name))),
        None => None,
    }
}

/// The condition of `DO UPDATE`, if it has one.
pub open spec fn conflict_condition(e: Option<SqlExpr>, params: Seq<Val>, k: Known) -> Result<
    Option<ExprView>,
    Stop,
> {
    match e {
        Some(e) => match lowered(e, params, k) {
            Ok(Some(x)) => Ok(Some(excluded(x))),
            Ok(None) => Err(Stop::Raised("Unsupported ON CONFLICT condition: "@ + e.text@)),
            Err(s) => Err(s),
        },
        None => Ok(None),
    }
}

fn plan_conflict_condition(e: &Option<SqlExpr>, params: &Vec<Value>, facts: &Facts) -> (r: Result<
    Option<ScalarExpr>,
    Halt,
>)
    ensures
        match r {
            Ok(e) => Ok(scalar_if(e)),
            Err(h) => Err(h@),
        } == conflict_condition(*e, vals(params@), facts@),
{
    match e {
        Some(e) => match lower_scalar(e, params, facts) {
            Ok(Some(x)) => Ok(Some(bind_excluded(&x))),
            Ok(None) => Err(
                Halt::Raised(concat2("Unsupported ON CONFLICT condition: ", e.text.as_str())),
            ),
            Err(h) => Err(h),
        },
        None => Ok(None),
    }
}

/// What the clause after the rows of an `INSERT` is planned to.
pub open spec fn planned_conflict(on: Option<InsertClause>, params: Seq<Val>, k: Known) -> Result<
    Option<ConflictView>,
    Stop,
> {
    match on {
        None => Ok(None),
        Some(InsertClause::Other(text)) => Err(
            Stop::Raised("Unsupported INSERT clause: "@ + text@),
        ),
        Some(InsertClause::OnConflict { target, action }) => match action {
            ConflictAction::Nothing => Ok(
                Some(ConflictView::DoNothing { target: conflict_key(target) }),
            ),
            ConflictAction::Update { assignments, selection } => match assignments_from(
                assignments@,
                0,
                Seq::empty(),
                params,
                k,
            ) {
                Ok(list) => match conflict_condition(selection, params, k) {
                    Ok(condition) => Ok(
                        Some(
                            ConflictView::DoUpdate {
                                target: conflict_key(target),
                                assignments: excluded_all(list),
                                condition,
                            },
                        ),
                    ),
                    Err(s) => Err(s),
                },
                Err(s) => Err(s),
            },
        },
    }
}

fn plan_conflict(on: &Option<InsertClause>, params: &Vec<Value>, facts: &Facts) -> (r: Result<
    Option<OnConflictClause>,
    Halt,
>)
    ensures
        match r {
            Ok(Some(c)) => Ok(Some(conflict_view(c))),
            Ok(None) => Ok(None),
            Err(h) => Err(h@),
        } == planned_conflict(*on, vals(params@), facts@),
{
    match on {
        None => Ok(None),
        Some(InsertClause::Other(text)) => Err(
            Halt::Raised(concat2("Unsupported INSERT clause: ", text.as_str())),
        ),
        Some(InsertClause::OnConflict { target, action }) => match action {
            ConflictAction::Nothing => Ok(
                Some(OnConflictClause::DoNothing { target: plan_conflict_key(target) }),
            ),
            ConflictAction::Update { assignments, selection } => match plan_assignments(
                assignments,
                params,
                facts,
            ) {
                Ok(list) => match plan_conflict_condition(selection, params, facts) {
                    Ok(condition) => Ok(
                        Some(
                            OnConflictClause::DoUpdate {
                                target: plan_conflict_key(target),
                                assignments: bind_all(&list),
                                condition,
                            },
                        ),
                    ),
                    Err(h) => Err(h),
                },
                Err(h) => Err(h),
            },
        },
    }
}

/// What a query is planned to under the `WITH` of the statement around it.
pub open spec fn planned_scoped(with: With, q: Query, params: Seq<Val>, k: Known) -> Result<
    PlanView,
    Stop,
> {
    match planned_ctes(with.ctes, 0, Seq::empty(), with.recursive, 1, params, k) {
        Ok(ctes) => planned_body(*q.body, ctes, q.order_by@, q.limit, q.offset, 1, params, k),
        Err(s) => Err(s),
    }
}

fn plan_scoped(with: &With, q: &Query, params: &Vec<Value>, facts: &Facts) -> (r: Result<
    LogicalPlan,
    Halt,
>)
    ensures
        plan_outcome(r) == planned_scoped(*with, *q, vals(params@), facts@),
{
    match plan_ctes(&with.ctes, with.recursive, 1, params, facts) {
        Ok(ctes) => plan_body(&q.body, ctes, &q.order_by, &q.limit, &q.offset, 1, params, facts),
        Err(h) => Err(h),
    }
}

/// The rows that an `INSERT` adds: listed values with their marks, or a query.
#[verifier::ext_equal]
pub struct RowsView {
    pub values: Seq<Seq<Val>>,
    pub marks: Seq<Seq<bool>>,
    pub source: Option<Box<PlanView>>,
}

/// What the source of an `INSERT` is planned to, under the `WITH` of the
/// statement around it. Without a source it is one row of defaults.
pub open spec fn planned_rows(
    source: Option<Box<Query>>,
    with: Option<With>,
    params: Seq<Val>,
    k: Known,
) -> Result<RowsView, Stop> {
    match source {
        None => Ok(
            RowsView {
                values: seq![Seq::empty()],
                marks: Seq::empty(),
                source: None,
            },
        ),
        Some(q) => match with {
            Some(with) => match planned_scoped(with, *q, params, k) {
                Ok(p) => Ok(
                    RowsView {
                        values: Seq::empty(),
                        marks: Seq::empty(),
                        source: Some(Box::new(p)),
                    },
                ),
                Err(s) => Err(s),
            },
            None => match *q.body {
                Body::Values(lists) if q.with is None => match value_list(lists@, params, k) {
                    Ok((values, marks)) => Ok(RowsView { values, marks, source: None }),
                    Err(s) => Err(s),
                },
                _ => match planned_query(*q, 0, params, k) {
                    Ok(p) => Ok(
                        RowsView {
                            values: Seq::empty(),
                            marks: Seq::empty(),
                            source: Some(Box::new(p)),
                        },
                    ),
                    Err(s) => Err(s),
                },
            },
        },
    }
}

/// The rows that an `INSERT` adds, in memory.
pub struct Rows {
    pub values: Vec<Vec<Value>>,
    pub marks: Vec<Vec<bool>>,
    pub source: Option<Arc<LogicalPlan>>,
}

/// What the rows of an `INSERT` stand for.
pub open spec fn rows_outcome(r: Result<Rows, Halt>) -> Result<RowsView, Stop> {
    match r {
        Ok(rows) => Ok(
            RowsView {
                values: rows_view(rows.values@),
                marks: flag_lists(rows.marks@),
                source: match rows.source {
                    Some(p) => Some(Box::new(plan_view(*p))),
                    None => None,
                },
            },
        ),
        Err(h) => Err(h@),
    }
}

fn rows_of_plan(plan: Result<LogicalPlan, Halt>) -> (r: Result<Rows, Halt>)
    ensures
        rows_outcome(r) == (match plan_outcome(plan) {
            Ok(p) => Ok(
                RowsView {
                    values: Seq::empty(),
                    marks: Seq::empty(),
                    source: Some(Box::new(p)),
                },
            ),
            Err(s) => Err(s),
        }),
{
    match plan {
        Ok(p) => {
            let values: Vec<Vec<Value>> = Vec::new();
            let marks: Vec<Vec<bool>> = Vec::new();
            assert(rows_view(values@) =~= Seq::<Seq<Val>>::empty());
            assert(flag_lists(marks@) =~= Seq::<Seq<bool>>::empty());
            Ok(Rows { values, marks, source: Some(Arc::new(p)) })
        },
        Err(h) => Err(h),
    }
}

fn plan_rows(
    source: &Option<Box<Query>>,
    with: &Option<With>,
    params: &Vec<Value>,
    facts: &Facts,
) -> (r: Result<Rows, Halt>)
    ensures
        rows_outcome(r) == planned_rows(*source, *with, vals(params@), facts@),
{
    match source {
        None => {
            let mut values: Vec<Vec<Value>> = Vec::new();
            let row: Vec<Value> = Vec::new();
            assert(vals(row@) =~= Seq::<Val>::empty());
            values.push(row);
            let marks: Vec<Vec<bool>> = Vec::new();
            assert(rows_view(values@) =~= seq![Seq::<Val>::empty()]);
            assert(flag_lists(marks@) =~= Seq::<Seq<bool>>::empty());
            Ok(Rows { values, marks, source: None })
        },
        Some(q) => match with {
            Some(with) => rows_of_plan(plan_scoped(with, q, params, facts)),
            None => {
                if q.with.is_none() {
                    if let Body::Values(lists) = &*q.body {
                        return match plan_value_list(lists, params, facts) {
                            Ok((values, marks)) => Ok(Rows { values, marks, source: None }),
                            Err(h) => Err(h),
                        };
                    }
                }
                rows_of_plan(plan_query(q, 0, params, facts))
            },
        },
    }
}

/// What an `INSERT` is planned to, under the `WITH` of the statement around it.
pub open spec fn planned_insert(ins: Insert, with: Option<With>, params: Seq<Val>, k: Known) -> Result<
    PlanView,
    Stop,
> {
    match returning(ins.returning, params, k) {
        Err(s) => Err(s),
        Ok((returned, found)) => match ins.table {
            Err(text) => Err(Stop::Raised("Unsupported INSERT target: "@ + text@)),
            Ok(table) => match planned_rows(ins.source, with, params, k) {
                Err(s) => Err(s),
                Ok(rows) => match planned_conflict(ins.on, params, k) {
                    Err(s) => Err(s),
                    Ok(on_conflict) => Ok(
                        PlanView::Insert {
                            table_name: table@,
                            columns: bare_names(ins.columns@),
                            values_list: rows.values,
                            returning: returned,
                            returning_exprs: kept_exprs(found),
                            on_conflict,
                            default_cells: rows.marks,
                            source: rows.source,
                        },
                    ),
                },
            },
        },
    }
}

/// Plans an `INSERT`; `with` scopes its source query.
pub fn plan_insert(ins: &Insert, with: &Option<With>, params: &Vec<Value>, facts: &Facts) -> (r:
    Result<LogicalPlan, Halt>)
    ensures
        plan_outcome(r) == planned_insert(*ins, *with, vals(params@), facts@),
{
    let (returned, found) = match plan_returning(&ins.returning, params, facts) {
        Ok(x) => x,
        Err(h) => return Err(h),
    };
    let table = match &ins.table {
        Ok(t) => t.clone(),
        Err(text) => return Err(
            Halt::Raised(concat2("Unsupported INSERT target: ", text.as_str())),
        ),
    };
    let rows = match plan_rows(&ins.source, with, params, facts) {
        Ok(x) => x,
        Err(h) => return Err(h),
    };
    let on_conflict = match plan_conflict(&ins.on, params, facts) {
        Ok(x) => x,
        Err(h) => return Err(h),
    };
    let returning_exprs = keep_exprs(found);
    Ok(
        LogicalPlan::Insert {
            table_name: table,
            columns: names_bare(&ins.columns),
            values_list: rows.values,
            returning: returned,
            returning_exprs,
            on_conflict,
            default_cells: rows.marks,
            source: rows.source,
        },
    )
}

// ---------------------------------------------------------------------------
// UPDATE and DELETE
// ---------------------------------------------------------------------------

/// The table that a relation is.
pub open spec fn named_table(f: TableFactor) -> Result<Seq<char>, Stop> {
    match f.kind {
        FactorKind::Table { name, .. } => Ok(name@),
        _ => Err(Stop::Raised("Unsupported table relation: "@ + f.text@)),
    }
}

/// The table that a relation is.
pub fn table_name_of(f: &TableFactor) -> (r: Result<String, Halt>)
    ensures
        crate::facts::text_outcome(r) == named_table(*f),
{
    match &f.kind {
        FactorKind::Table { name, .. } => Ok(name.clone()),
        _ => Err(Halt::Raised(concat2("Unsupported table relation: ", f.text.as_str()))),
    }
}

/// What an `UPDATE` of one table is planned to.
pub open spec fn planned_update(
    from: bool,
    table: FromItem,
    assignments: Seq<Assignment>,
    selection: Option<SqlExpr>,
    items: Option<Vec<SelectItem>>,
    params: Seq<Val>,
    k: Known,
) -> Result<PlanView, Stop> {
    if from {
        Err(Stop::Raised("UPDATE ... FROM is not supported"@))
    } else if table.joins@.len() != 0 {
        Err(Stop::Raised("UPDATE of a joined relation is not supported"@))
    } else {
        match named_table(table.relation) {
            Err(s) => Err(s),
            Ok(name) => match assignments_from(assignments, 0, Seq::empty(), params, k) {
                Err(s) => Err(s),
                Ok(list) => match planned_where(selection, 0, params, k) {
                    Err(s) => Err(s),
                    Ok(filter) => match returning(items, params, k) {
                        Err(s) => Err(s),
                        Ok((returned, found)) => Ok(
                            PlanView::Update {
                                table_name: name,
                                assignments: list,
                                filter,
                                returning: returned,
                                returning_exprs: kept_exprs(found),
                                table_alias: None,
                                from: None,
                            },
                        ),
                    },
                },
            },
        }
    }
}

/// Plans an `UPDATE` of one table.
pub fn plan_update(
    from: bool,
    table: &FromItem,
    assignments: &Vec<Assignment>,
    selection: &Option<SqlExpr>,
    items: &Option<Vec<SelectItem>>,
    params: &Vec<Value>,
    facts: &Facts,
) -> (r: Result<LogicalPlan, Halt>)
    ensures
        plan_outcome(r) == planned_update(
            from,
            *table,
            assignments@,
            *selection,
            *items,
            vals(params@),
            facts@,
        ),
{
    if from {
        return Err(Halt::Raised("UPDATE ... FROM is not supported".to_owned()));
    }
    if table.joins.len() != 0 {
        return Err(Halt::Raised("UPDATE of a joined relation is not supported".to_owned()));
    }
    let table_name = match table_name_of(&table.relation) {
        Ok(x) => x,
        Err(h) => return Err(h),
    };
    let assignments = match plan_assignments(assignments, params, facts) {
        Ok(x) => x,
        Err(h) => return Err(h),
    };
    let filter = match parse_predicates(selection, 0, params, facts) {
        Ok(x) => x,
        Err(h) => return Err(h),
    };
    let (returning, found) = match plan_returning(items, params, facts) {
        Ok(x) => x,
        Err(h) => return Err(h),
    };
    let returning_exprs = keep_exprs(found);
    Ok(
        LogicalPlan::Update {
            table_name,
            assignments,
            filter,
            returning,
            returning_exprs,
            table_alias: None,
            from: None,
        },
    )
}

/// What a `DELETE` from one table is planned to.
pub open spec fn planned_delete(
    using: bool,
    from: Seq<FromItem>,
    selection: Option<SqlExpr>,
    items: Option<Vec<SelectItem>>,
    params: Seq<Val>,
    k: Known,
) -> Result<PlanView, Stop> {
    if using {
        Err(Stop::Raised("DELETE ... USING is not supported"@))
    } else if from.len() > 1 || (from.len() == 1 && from[0].joins@.len() != 0) {
        Err(Stop::Raised("DELETE from several relations is not supported"@))
    } else if from.len() == 0 {
        Err(Stop::Raised("DELETE without a table"@))
    } else {
        match named_table(from[0].relation) {
            Err(s) => Err(s),
            Ok(name) => match planned_where(selection, 0, params, k) {
                Err(s) => Err(s),
                Ok(filter) => match returning(items, params, k) {
                    Err(s) => Err(s),
                    Ok((returned, found)) => Ok(
                        PlanView::Delete {
                            table_name: name,
                            filter,
                            returning: returned,
                            returning_exprs: kept_exprs(found),
                            table_alias: None,
                            using: None,
                        },
                    ),
                },
            },
        }
    }
}

/// Plans a `DELETE` from one table.
pub fn plan_delete(
    using: bool,
    from: &Vec<FromItem>,
    selection: &Option<SqlExpr>,
    items: &Option<Vec<SelectItem>>,
    params: &Vec<Value>,
    facts: &Facts,
) -> (r: Result<LogicalPlan, Halt>)
    ensures
        plan_outcome(r) == planned_delete(
            using,
            from@,
            *selection,
            *items,
            vals(params@),
            facts@,
        ),
{
    if using {
        return Err(Halt::Raised("DELETE ... USING is not supported".to_owned()));
    }
    if from.len() > 1 || (from.len() == 1 && from[0].joins.len() != 0) {
        return Err(Halt::Raised("DELETE from several relations is not supported".to_owned()));
    }
    if from.len() == 0 {
        return Err(Halt::Raised("DELETE without a table".to_owned()));
    }
    let table_name = match table_name_of(&from[0].relation) {
        Ok(x) => x,
        Err(h) => return Err(h),
    };
    let filter = match parse_predicates(selection, 0, params, facts) {
        Ok(x) => x,
        Err(h) => return Err(h),
    };
    let (returning, found) = match plan_returning(items, params, facts) {
        Ok(x) => x,
        Err(h) => return Err(h),
    };
    let returning_exprs = keep_exprs(found);
    Ok(
        LogicalPlan::Delete {
            table_name,
            filter,
            returning,
            returning_exprs,
            table_alias: None,
            using: None,
        },
    )
}

// ---------------------------------------------------------------------------
// Laws
// ---------------------------------------------------------------------------

/// A condition that is planned is kept: an `UPDATE` or a `DELETE` with a
/// `WHERE` never loses it, and so never touches every row for want of it.
pub proof fn law_a_where_is_never_dropped(
    e: SqlExpr,
    table: FromItem,
    assignments: Seq<Assignment>,
    items: Option<Vec<SelectItem>>,
    params: Seq<Val>,
    k: Known,
)
    ensures
        match planned_update(false, table, assignments, Some(e), items, params, k) {
            Ok(p) => p is Update && p->Update_filter is Some,
            Err(_) => true,
        },
        match planned_delete(false, seq![table], Some(e), items, params, k) {
            Ok(p) => p is Delete && p->Delete_filter is Some,
            Err(_) => true,
        },
{
}

/// Only a reference with the qualifier `excluded` is bound anew, so binding
/// twice is binding once.
pub proof fn law_binding_a_name_twice(name: Seq<char>)
    ensures
        excluded_name(excluded_name(name)) == excluded_name(name),
{
    reveal_strlit("excluded");
    reveal_strlit("excluded.");
    if let Some((qualifier, column)) = split_once(name, '.') {
        if lower(qualifier) == "excluded"@ {
            let bound = "excluded."@ + column;
            crate::text::lemma_split_once_at(bound, '.', 8);
            assert(bound.take(8) =~= "excluded"@);
            assert(bound.skip(9) =~= column);
            assert(lower("excluded"@) =~= "excluded"@);
        }
    }
}

} // verus!
